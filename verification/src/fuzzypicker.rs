use vstd::prelude::*;

use crate::files::str_views;
use crate::text::{byte_len, byte_offset, lemma_encode_utf8_concat, lemma_encode_utf8_len, lemma_ascii_boundaries, chars_of, has_substring, is_byte_boundary, lowercase, push_char, string_insert, string_of, string_remove, to_lowercase, trim, trim_vec};

verus! {

/// Whether nucleo's matcher, with its default configuration, finds `needle` in
/// `haystack` (a name for what `Matcher::fuzzy_match` decides).
pub uninterp spec fn fuzzy_matches(haystack: Seq<char>, needle: Seq<char>) -> bool;

/// `nucleo::Matcher::fuzzy_match` with the default configuration: whether `needle` is
/// found in `haystack`. The matcher panics when the haystack's converted length (its
/// bytes when ASCII-led, else its graphemes, never more than its UTF-8 bytes) passes
/// `u32::MAX`; `requires` bounds the UTF-8 byte length.
#[verifier::external_body]
fn fuzzy_match(haystack: &str, needle: &str) -> (r: bool)
    requires
        byte_len(haystack@) <= u32::MAX,
    ensures
        r == fuzzy_matches(haystack@, needle@),
{
    let mut matcher = nucleo::Matcher::new(nucleo::Config::DEFAULT);
    let mut hbuf = Vec::new();
    let mut nbuf = Vec::new();
    let h = nucleo::Utf32Str::new(haystack, &mut hbuf);
    let n = nucleo::Utf32Str::new(needle, &mut nbuf);
    matcher.fuzzy_match(h, n).is_some()
}

/// Whether a name matches a search pattern that is already trimmed and lower-cased:
/// by the fuzzy matcher, or, for names of more than `u32::MAX` UTF-8 bytes, by
/// case-insensitive substring.
pub open spec fn name_matches(needle: Seq<char>, name: Seq<char>) -> bool {
    if byte_len(name) <= u32::MAX {
        fuzzy_matches(name, needle)
    } else {
        has_substring(lowercase(name), needle)
    }
}

/// The indices `0..n`.
pub open spec fn all_indices(n: nat) -> Seq<usize> {
    Seq::new(n, |i: int| i as usize)
}

/// The indices of the first `k` names that match `needle`, in order.
pub open spec fn matching_indices(needle: Seq<char>, names: Seq<Seq<char>>, k: nat) -> Seq<usize>
    decreases k,
{
    if k == 0 {
        Seq::empty()
    } else if name_matches(needle, names[k - 1]) {
        matching_indices(needle, names, (k - 1) as nat).push((k - 1) as usize)
    } else {
        matching_indices(needle, names, (k - 1) as nat)
    }
}

/// The names that a search pattern keeps: all of them when the pattern, or its trimmed
/// form, is empty; otherwise those matching its trimmed, lower-cased form.
pub open spec fn search_matches(pattern: Seq<char>, names: Seq<Seq<char>>) -> Seq<usize> {
    let needle = lowercase(trim(pattern));
    if pattern.len() == 0 || needle.len() == 0 {
        all_indices(names.len())
    } else {
        matching_indices(needle, names, names.len())
    }
}

/// The search ignores the case of its pattern and white space around it: two patterns
/// that trim and lower-case to the same text keep the same names (the empty pattern,
/// which keeps every name, aside).
pub proof fn lemma_search_ignores_case(p: Seq<char>, q: Seq<char>, names: Seq<Seq<char>>)
    requires
        lowercase(trim(p)) == lowercase(trim(q)),
        (p.len() == 0) == (q.len() == 0),
    ensures
        search_matches(p, names) == search_matches(q, names),
{
}

/// Whether `p` occurs in `s`.
fn contains_seq(s: &Vec<char>, p: &Vec<char>) -> (r: bool)
    ensures
        r == has_substring(s@, p@),
{
    if p.len() > s.len() {
        return false;
    }
    let mut i: usize = 0;
    while i <= s.len() - p.len()
        invariant
            p.len() <= s.len(),
            i <= s.len() - p.len() + 1,
            forall|j: int| 0 <= j < i ==> #[trigger] s@.subrange(j, j + p.len()) != p@,
        decreases s.len() - i,
    {
        let mut k: usize = 0;
        let mut same = true;
        while k < p.len()
            invariant
                k <= p.len(),
                i + p.len() <= s.len(),
                same == (forall|m: int| 0 <= m < k ==> s@[i + m] == p@[m]),
            decreases p.len() - k,
        {
            if s[i + k] != p[k] {
                same = false;
            }
            k = k + 1;
        }
        if same {
            assert(s@.subrange(i as int, i + p.len()) =~= p@);
            return true;
        }
        proof {
            if s@.subrange(i as int, i + p.len()) == p@ {
                assert forall|m: int| 0 <= m < p.len() implies s@[i + m] == p@[m] by {
                    assert(s@.subrange(i as int, i + p.len())[m] == s@[i + m]);
                }
            }
        }
        i = i + 1;
    }
    false
}

/// The state of a search box: the pattern typed so far, the cursor (a byte position in
/// the pattern), and the indices of the names that the pattern keeps.
#[derive(Debug)]
pub struct FuzzySearch {
    pub pattern: String,
    pub cursor: usize,
    pub matches: Vec<usize>,
}

/// `f`'s pattern is `o`'s with `c` typed at the cursor (a byte position on a character
/// boundary), and the cursor has moved one byte on.
pub open spec fn typed(o: FuzzySearch, f: FuzzySearch, c: char) -> bool {
    &&& f.cursor == o.cursor + 1
    &&& o.cursor == byte_len(o.pattern@) ==> f.pattern@ == o.pattern@.push(c)
    &&& o.cursor != byte_len(o.pattern@) ==> exists|k: int|
        0 <= k <= o.pattern@.len() && byte_offset(o.pattern@, k) == o.cursor
            && f.pattern@ == o.pattern@.insert(k, c)
}

/// `f`'s pattern is `o`'s without the character that starts one byte before the cursor,
/// and the cursor has moved back one byte; nothing changes at the start.
pub open spec fn backspaced(o: FuzzySearch, f: FuzzySearch) -> bool {
    &&& o.cursor == 0 ==> f.pattern == o.pattern && f.cursor == 0
    &&& o.cursor > 0 ==> f.cursor == o.cursor - 1 && exists|k: int|
        0 <= k < o.pattern@.len() && byte_offset(o.pattern@, k) == o.cursor - 1
            && f.pattern@ == o.pattern@.remove(k)
}

/// `f`'s pattern is `o`'s without the character at the cursor, which stays; nothing
/// changes at the end.
pub open spec fn deleted(o: FuzzySearch, f: FuzzySearch) -> bool {
    &&& f.cursor == o.cursor
    &&& o.cursor >= byte_len(o.pattern@) ==> f.pattern == o.pattern
    &&& o.cursor < byte_len(o.pattern@) ==> exists|k: int|
        0 <= k < o.pattern@.len() && byte_offset(o.pattern@, k) == o.cursor
            && f.pattern@ == o.pattern@.remove(k)
}

/// No character of `q` but the `k`-th starts at byte `byte_offset(q, k)`.
proof fn lemma_byte_offset_unique(q: Seq<char>, j: int, k: int)
    requires
        0 <= j <= q.len(),
        0 <= k <= q.len(),
        j != k,
        vstd::utf8::encode_utf8(q).len() <= usize::MAX,
    ensures
        byte_offset(q, j) != byte_offset(q, k),
{
    let (a, b) = if j < k { (j, k) } else { (k, j) };
    lemma_encode_utf8_concat(q.take(a), q.subrange(a, b));
    lemma_encode_utf8_concat(q.take(b), q.skip(b));
    lemma_encode_utf8_len(q.subrange(a, b));
    assert(q.take(a) + q.subrange(a, b) =~= q.take(b));
    assert(q.take(b) + q.skip(b) =~= q);
}

/// Typing a character and then deleting the character before the cursor gives back the
/// pattern and the cursor.
pub proof fn lemma_type_then_backspace(o: FuzzySearch, m: FuzzySearch, f: FuzzySearch, c: char)
    requires
        typed(o, m, c),
        backspaced(m, f),
        vstd::utf8::encode_utf8(m.pattern@).len() <= usize::MAX,
    ensures
        f.pattern@ == o.pattern@,
        f.cursor == o.cursor,
{
    let p = o.pattern@;
    let q = m.pattern@;
    let k: int = if o.cursor == byte_len(p) {
        p.len() as int
    } else {
        choose|k: int| 0 <= k <= p.len() && byte_offset(p, k) == o.cursor && q == p.insert(k, c)
    };
    if o.cursor == byte_len(p) {
        assert(q == p.push(c));
        assert(q.take(p.len() as int) =~= p);
        assert(p.take(p.len() as int) =~= p);
        assert(q =~= p.insert(k, c));
    }
    assert(0 <= k <= p.len() && byte_offset(p, k) == o.cursor && q == p.insert(k, c));
    assert(q.take(k) =~= p.take(k));
    assert(byte_offset(q, k) == o.cursor);
    let k2 = choose|j: int|
        0 <= j < q.len() && byte_offset(q, j) == m.cursor - 1 && f.pattern@ == q.remove(j);
    if k2 != k {
        lemma_byte_offset_unique(q, k2, k);
    }
    assert(q.remove(k) =~= p);
}

/// In an ASCII pattern every cursor position up to its length is a character boundary:
/// typing an ASCII character there inserts it at that position and moves the cursor on,
/// and a backspace right after gives back the pattern and the cursor.
pub proof fn lemma_ascii_type_then_backspace(
    o: FuzzySearch,
    m: FuzzySearch,
    f: FuzzySearch,
    c: char,
)
    requires
        vstd::utf8::is_ascii_chars(o.pattern@),
        '\0' <= c <= '\u{7f}',
        o.cursor <= o.pattern@.len(),
        o.pattern@.len() < usize::MAX,
        typed(o, m, c),
        backspaced(m, f),
    ensures
        is_byte_boundary(o.pattern@, o.cursor as int),
        o.cursor < usize::MAX,
        m.pattern@ == o.pattern@.insert(o.cursor as int, c),
        m.cursor == o.cursor + 1,
        is_byte_boundary(m.pattern@, m.cursor - 1),
        m.cursor - 1 < byte_len(m.pattern@),
        f.pattern@ == o.pattern@,
        f.cursor == o.cursor,
{
    let p = o.pattern@;
    let q = m.pattern@;
    let i = o.cursor as int;
    lemma_ascii_boundaries(p, i);
    assert(byte_len(p) == p.len());
    if o.cursor == byte_len(p) {
        assert(q == p.push(c));
        assert(q =~= p.insert(i, c));
    } else {
        let k = choose|k: int|
            0 <= k <= p.len() && byte_offset(p, k) == o.cursor && q == p.insert(k, c);
        assert(vstd::utf8::is_ascii_chars(p.take(k)));
        lemma_ascii_boundaries(p.take(k), 0);
        assert(byte_offset(p, k) == k);
    }
    assert(q == p.insert(i, c));
    assert(vstd::utf8::is_ascii_chars(q)) by {
        assert forall|j: int| 0 <= j < q.len() implies '\0' <= #[trigger] q[j] <= '\u{7f}' by {
            if j < i {
                assert(q[j] == p[j]);
            } else if j > i {
                assert(q[j] == p[j - 1]);
            }
        }
    }
    lemma_ascii_boundaries(q, i);
    assert(byte_len(q) == q.len());
    lemma_type_then_backspace(o, m, f, c);
}

impl FuzzySearch {
    /// An empty search.
    pub fn new() -> (r: Self)
        ensures
            r.pattern@.len() == 0,
            r.cursor == 0,
            r.matches@.len() == 0,
    {
        FuzzySearch { pattern: String::new(), cursor: 0, matches: Vec::new() }
    }

    /// Recomputes which of `file_names` the pattern keeps (see `search_matches`).
    pub fn update_matches(&mut self, file_names: &Vec<String>)
        ensures
            final(self).pattern == old(self).pattern,
            final(self).cursor == old(self).cursor,
            final(self).matches@ == search_matches(old(self).pattern@, str_views(file_names@)),
            trim(old(self).pattern@).len() == 0 ==> final(self).matches@ == all_indices(
                file_names@.len(),
            ),
    {
        let ghost names = str_views(file_names@);
        let n = file_names.len();
        let t = trim_vec(&chars_of(self.pattern.as_str()));
        let lowered = to_lowercase(string_of(&t).as_str());
        let needle = chars_of(lowered.as_str());
        if self.pattern.as_str().is_empty() || needle.len() == 0 {
            let mut all: Vec<usize> = Vec::new();
            let mut i: usize = 0;
            while i < n
                invariant
                    i <= n,
                    all@ == all_indices(i as nat),
                decreases n - i,
            {
                all.push(i);
                assert(all@ =~= all_indices((i + 1) as nat));
                i = i + 1;
            }
            self.matches = all;
            return;
        }
        let mut found: Vec<usize> = Vec::new();
        let mut i: usize = 0;
        while i < n
            invariant
                i <= n,
                n == file_names@.len(),
                names == str_views(file_names@),
                needle@ == lowercase(trim(self.pattern@)),
                needle@ == lowered@,
                found@ == matching_indices(needle@, names, i as nat),
            decreases n - i,
        {
            let name = &file_names[i];
            assert(names[i as int] == name@);
            let matched = if name.as_str().len() <= u32::MAX as usize {
                fuzzy_match(name.as_str(), lowered.as_str())
            } else {
                let ln = to_lowercase(name.as_str());
                contains_seq(&chars_of(ln.as_str()), &needle)
            };
            proof {
                assert(matched == name_matches(needle@, names[i as int]));
            }
            let ghost prev = found@;
            if matched {
                found.push(i);
            }
            assert(found@ == matching_indices(needle@, names, (i + 1) as nat));
            i = i + 1;
        }
        self.matches = found;
    }

    /// Types `c` at the cursor and moves the cursor one byte on. The cursor must lie on
    /// a character boundary.
    pub fn handle_input(&mut self, c: char)
        requires
            is_byte_boundary(old(self).pattern@, old(self).cursor as int),
            old(self).cursor < usize::MAX,
        ensures
            typed(*old(self), *final(self), c),
            final(self).matches == old(self).matches,
    {
        if self.cursor == self.pattern.as_str().len() {
            push_char(&mut self.pattern, c);
        } else {
            string_insert(&mut self.pattern, self.cursor, c);
        }
        self.cursor = self.cursor + 1;
    }

    /// Deletes the character that ends at the cursor and moves the cursor back one
    /// byte; nothing at the start.
    pub fn backspace(&mut self)
        requires
            old(self).cursor > 0 ==> is_byte_boundary(old(self).pattern@, old(self).cursor - 1)
                && old(self).cursor - 1 < byte_len(old(self).pattern@),
        ensures
            backspaced(*old(self), *final(self)),
            final(self).matches == old(self).matches,
    {
        if self.cursor > 0 {
            self.cursor = self.cursor - 1;
            string_remove(&mut self.pattern, self.cursor);
        }
    }

    /// Deletes the character at the cursor; nothing at the end.
    pub fn delete(&mut self)
        requires
            old(self).cursor < byte_len(old(self).pattern@) ==> is_byte_boundary(
                old(self).pattern@,
                old(self).cursor as int,
            ),
        ensures
            deleted(*old(self), *final(self)),
            final(self).matches == old(self).matches,
    {
        if self.cursor < self.pattern.as_str().len() {
            string_remove(&mut self.pattern, self.cursor);
        }
    }

    /// Moves the cursor back one byte, unless it is at the start.
    pub fn move_cursor_left(&mut self)
        ensures
            final(self).pattern == old(self).pattern,
            final(self).matches == old(self).matches,
            final(self).cursor == if old(self).cursor > 0 {
                (old(self).cursor - 1) as usize
            } else {
                0
            },
    {
        if self.cursor > 0 {
            self.cursor = self.cursor - 1;
        }
    }

    /// Moves the cursor on one byte, unless it is at the end.
    pub fn move_cursor_right(&mut self)
        ensures
            final(self).pattern == old(self).pattern,
            final(self).matches == old(self).matches,
            final(self).cursor == if old(self).cursor < byte_len(old(self).pattern@) {
                (old(self).cursor + 1) as usize
            } else {
                old(self).cursor
            },
    {
        if self.cursor < self.pattern.as_str().len() {
            self.cursor = self.cursor + 1;
        }
    }
}

} // verus!
