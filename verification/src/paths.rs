use vstd::prelude::*;

use crate::text::{replace_char, split, string_of, chars_of, trim_char_end};

verus! {

/// The character views of a sequence of character vectors.
pub open spec fn vviews(v: Seq<Vec<char>>) -> Seq<Seq<char>> {
    v.map_values(|x: Vec<char>| x@)
}

/// Splits `v` at every `sep` (as `str::split` does).
pub fn split_chars(v: &Vec<char>, sep: char) -> (r: Vec<Vec<char>>)
    ensures
        vviews(r@) == split(v@, sep),
{
    let mut pieces: Vec<Vec<char>> = Vec::new();
    let mut cur: Vec<char> = Vec::new();
    let mut i: usize = 0;
    assert(v@.take(0) =~= Seq::<char>::empty());
    assert(vviews(pieces@).push(cur@) =~= seq![Seq::<char>::empty()]);
    while i < v.len()
        invariant
            i <= v.len(),
            split(v@.take(i as int), sep) == vviews(pieces@).push(cur@),
        decreases v.len() - i,
    {
        let c = v[i];
        let ghost prev_pieces = pieces@;
        let ghost prev_cur = cur@;
        proof {
            assert(v@.take(i + 1).drop_last() =~= v@.take(i as int));
            assert(v@.take(i + 1).last() == c);
        }
        if c == sep {
            let done = cur;
            pieces.push(done);
            cur = Vec::new();
            proof {
                assert(vviews(pieces@) =~= vviews(prev_pieces).push(prev_cur));
                assert(vviews(pieces@).push(cur@) =~= split(v@.take(i as int), sep).push(
                    Seq::<char>::empty(),
                ));
            }
        } else {
            cur.push(c);
            proof {
                let sp = split(v@.take(i as int), sep);
                assert(sp.update(sp.len() - 1, sp.last().push(c)) =~= vviews(pieces@).push(
                    cur@,
                ));
            }
        }
        i = i + 1;
    }
    assert(v@.take(v.len() as int) =~= v@);
    let ghost prev_pieces = pieces@;
    let ghost prev_cur = cur@;
    pieces.push(cur);
    assert(vviews(pieces@) =~= vviews(prev_pieces).push(prev_cur));
    pieces
}

/// The last component of `pieces` that is neither empty nor `.`.
pub open spec fn last_normal(pieces: Seq<Seq<char>>) -> Option<Seq<char>>
    decreases pieces.len(),
{
    if pieces.len() == 0 {
        None
    } else if pieces.last().len() == 0 || pieces.last() == seq!['.'] {
        last_normal(pieces.drop_last())
    } else {
        Some(pieces.last())
    }
}

/// The final component of a path, if it is a normal one (what `Path::file_name` gives
/// for a `/`-separated path): empty components and `.` are skipped, and a final `..`
/// gives none.
pub open spec fn file_name(p: Seq<char>) -> Option<Seq<char>> {
    match last_normal(split(p, '/')) {
        Some(n) => if n == seq!['.', '.'] {
            None
        } else {
            Some(n)
        },
        None => None,
    }
}

/// Index of the last `c` in `s`, or -1.
pub open spec fn last_index_of(s: Seq<char>, c: char) -> int
    decreases s.len(),
{
    if s.len() == 0 {
        -1
    } else if s.last() == c {
        s.len() - 1
    } else {
        last_index_of(s.drop_last(), c)
    }
}

/// The extension of a file name: what follows its last dot, unless the only dot is the
/// first character, or there is none, or the name is `..` (as `Path::extension`).
pub open spec fn name_extension(n: Seq<char>) -> Option<Seq<char>> {
    let i = last_index_of(n, '.');
    if n == seq!['.', '.'] || i <= 0 {
        None
    } else {
        Some(n.skip(i + 1))
    }
}

/// The stem of a file name: what precedes its last dot, with the same exceptions as
/// `name_extension`, where it is the whole name (as `Path::file_stem`).
pub open spec fn name_stem(n: Seq<char>) -> Seq<char> {
    let i = last_index_of(n, '.');
    if n == seq!['.', '.'] || i <= 0 {
        n
    } else {
        n.take(i)
    }
}

/// `base` joined with `rel` (as `Path::join` on Unix): an absolute `rel` replaces `base`,
/// otherwise a `/` is put between them unless `base` is empty or already ends with one.
pub open spec fn join(base: Seq<char>, rel: Seq<char>) -> Seq<char> {
    if rel.len() > 0 && rel[0] == '/' {
        rel
    } else if base.len() > 0 && base.last() != '/' {
        base.push('/') + rel
    } else {
        base + rel
    }
}

/// Backslashes turned into slashes and trailing slashes removed.
pub open spec fn normalized_sep(s: Seq<char>) -> Seq<char> {
    trim_char_end(replace_char(s, '\\', '/'), '/')
}

proof fn lemma_last_index_of_bounds(s: Seq<char>, c: char)
    ensures
        -1 <= last_index_of(s, c) < s.len(),
        last_index_of(s, c) >= 0 ==> s[last_index_of(s, c)] == c,
    decreases s.len(),
{
    if s.len() > 0 && s.last() != c {
        lemma_last_index_of_bounds(s.drop_last(), c);
    }
}

fn find_last(v: &Vec<char>, c: char) -> (r: Option<usize>)
    ensures
        match r {
            Some(k) => k == last_index_of(v@, c),
            None => last_index_of(v@, c) == -1,
        },
{
    let mut i: usize = v.len();
    assert(v@.take(i as int) =~= v@);
    while i > 0
        invariant
            i <= v.len(),
            last_index_of(v@, c) == last_index_of(v@.take(i as int), c),
        decreases i,
    {
        assert(v@.take(i as int).last() == v@[i - 1]);
        assert(v@.take(i as int).drop_last() =~= v@.take(i - 1));
        if v[i - 1] == c {
            return Some(i - 1);
        }
        i = i - 1;
    }
    assert(v@.take(0) =~= Seq::<char>::empty());
    None
}

/// The file name of the path `p`, if any.
pub fn file_name_of(p: &Vec<char>) -> (r: Option<Vec<char>>)
    ensures
        match r {
            Some(n) => file_name(p@) == Some(n@),
            None => file_name(p@) is None,
        },
{
    let pieces = split_chars(p, '/');
    let mut i: usize = pieces.len();
    proof {
        assert(vviews(pieces@).take(i as int) =~= vviews(pieces@));
    }
    while i > 0
        invariant
            i <= pieces.len(),
            vviews(pieces@) == split(p@, '/'),
            last_normal(split(p@, '/')) == last_normal(vviews(pieces@).take(i as int)),
        decreases i,
    {
        let ghost t = vviews(pieces@).take(i as int);
        assert(t.last() == pieces@[i - 1]@);
        assert(t.drop_last() =~= vviews(pieces@).take(i - 1));
        let piece = &pieces[i - 1];
        let is_dot = piece.len() == 1 && piece[0] == '.';
        proof {
            if piece@ == seq!['.'] {
                assert(piece@[0] == '.');
            }
            if is_dot {
                assert(piece@ =~= seq!['.']);
            }
        }
        if piece.len() != 0 && !is_dot {
            let is_parent = piece.len() == 2 && piece[0] == '.' && piece[1] == '.';
            proof {
                if is_parent {
                    assert(piece@ =~= seq!['.', '.']);
                }
                if piece@ == seq!['.', '.'] {
                    assert(piece@[0] == '.' && piece@[1] == '.');
                }
            }
            if is_parent {
                return None;
            }
            let mut out: Vec<char> = Vec::new();
            let mut j: usize = 0;
            while j < piece.len()
                invariant
                    j <= piece.len(),
                    out@ == piece@.take(j as int),
                decreases piece.len() - j,
            {
                out.push(piece[j]);
                assert(piece@.take(j as int).push(piece@[j as int]) =~= piece@.take(j + 1));
                j = j + 1;
            }
            assert(piece@.take(piece.len() as int) =~= piece@);
            return Some(out);
        }
        i = i - 1;
    }
    None
}

/// The parts of a file name used for matching: the name, `"." + extension` (empty when
/// there is no extension) and the stem.
pub open spec fn name_parts(p: Seq<char>) -> (Seq<char>, Seq<char>, Seq<char>) {
    match file_name(p) {
        Some(n) => (
            n,
            match name_extension(n) {
                Some(e) => seq!['.'] + e,
                None => Seq::empty(),
            },
            name_stem(n),
        ),
        None => (Seq::empty(), Seq::empty(), Seq::empty()),
    }
}

/// Name, dotted extension and stem of the path `p` (each empty when `p` has no file name).
pub fn path_name_parts(p: &str) -> (r: (String, String, String))
    ensures
        (r.0@, r.1@, r.2@) == name_parts(p@),
{
    let v = chars_of(p);
    match file_name_of(&v) {
        None => (String::new(), String::new(), String::new()),
        Some(n) => {
            let name = string_of(&n);
            let i = find_last(&n, '.');
            proof {
                lemma_last_index_of_bounds(n@, '.');
            }
            let is_parent = n.len() == 2 && n[0] == '.' && n[1] == '.';
            proof {
                if is_parent {
                    assert(n@ =~= seq!['.', '.']);
                }
                if n@ == seq!['.', '.'] {
                    assert(n@[0] == '.' && n@[1] == '.');
                }
            }
            let split_at: Option<usize> = match i {
                Some(k) => if k == 0 { None } else { Some(k) },
                None => None,
            };
            if is_parent || split_at.is_none() {
                (name, String::new(), string_of(&n))
            } else {
                let k = split_at.unwrap();
                let mut ext: Vec<char> = Vec::new();
                ext.push('.');
                let mut j = k + 1;
                while j < n.len()
                    invariant
                        k + 1 <= j <= n.len(),
                        ext@ == seq!['.'] + n@.subrange(k + 1, j as int),
                    decreases n.len() - j,
                {
                    ext.push(n[j]);
                    assert(seq!['.'] + n@.subrange(k + 1, j + 1) =~= (seq!['.'] + n@.subrange(
                        k + 1,
                        j as int,
                    )).push(n@[j as int]));
                    j = j + 1;
                }
                assert(n@.subrange(k + 1, n.len() as int) =~= n@.skip(k + 1));
                let mut stem: Vec<char> = Vec::new();
                let mut j2: usize = 0;
                while j2 < k
                    invariant
                        j2 <= k < n.len(),
                        stem@ == n@.take(j2 as int),
                    decreases k - j2,
                {
                    stem.push(n[j2]);
                    assert(n@.take(j2 as int).push(n@[j2 as int]) =~= n@.take(j2 + 1));
                    j2 = j2 + 1;
                }
                (name, string_of(&ext), string_of(&stem))
            }
        },
    }
}

} // verus!

verus! {

/// `base` joined with `rel` (see `join`).
pub fn join_path(base: &str, rel: &str) -> (r: String)
    ensures
        r@ == join(base@, rel@),
{
    let b = chars_of(base);
    let rv = chars_of(rel);
    if rv.len() > 0 && rv[0] == '/' {
        return string_of(&rv);
    }
    let mut out = b;
    if out.len() > 0 && out[out.len() - 1] != '/' {
        out.push('/');
    }
    let ghost mid = out@;
    let mut i: usize = 0;
    while i < rv.len()
        invariant
            i <= rv.len(),
            out@ == mid + rv@.take(i as int),
        decreases rv.len() - i,
    {
        out.push(rv[i]);
        assert(mid + rv@.take(i + 1) =~= (mid + rv@.take(i as int)).push(rv@[i as int]));
        i = i + 1;
    }
    assert(rv@.take(rv.len() as int) =~= rv@);
    string_of(&out)
}

/// Backslashes turned into slashes and trailing slashes removed.
pub fn normalize_sep(s: &str) -> (r: String)
    ensures
        r@ == normalized_sep(s@),
{
    let v = chars_of(s);
    let mut out: Vec<char> = Vec::new();
    let mut i: usize = 0;
    while i < v.len()
        invariant
            i <= v.len(),
            out@ == replace_char(v@.take(i as int), '\\', '/'),
        decreases v.len() - i,
    {
        let c = v[i];
        if c == '\\' {
            out.push('/');
        } else {
            out.push(c);
        }
        assert(replace_char(v@.take(i + 1), '\\', '/') =~= replace_char(v@.take(i as int), '\\', '/').push(
            if c == '\\' { '/' } else { c },
        ));
        i = i + 1;
    }
    assert(v@.take(v.len() as int) =~= v@);
    let ghost rep = out@;
    let mut n = out.len();
    assert(rep.take(n as int) =~= rep);
    while n > 0 && out[n - 1] == '/'
        invariant
            n <= out.len(),
            out@ == rep,
            trim_char_end(rep, '/') == trim_char_end(rep.take(n as int), '/'),
        decreases n,
    {
        assert(rep.take(n as int).drop_last() =~= rep.take(n - 1));
        n = n - 1;
    }
    out.truncate(n);
    assert(out@ =~= rep.take(n as int));
    string_of(&out)
}

/// The user's configuration directory (`dirs::config_dir`), as a string. It comes from
/// the environment, so nothing is stated of it.
#[verifier::external_body]
pub(crate) fn config_dir() -> (r: Option<String>) {
    match dirs::config_dir() {
        Some(p) => Some(p.to_string_lossy().to_string()),
        None => None,
    }
}

} // verus!
