use vstd::prelude::*;

use crate::files::{str_views, vec_starts_with};
use crate::output::trim_char_vec;
use crate::text::{chars_of, is_prefix, is_ws, lowercase, string_of, to_lowercase, trim, trim_char, trim_vec};

verus! {

/// Whether an answer to a yes/no question is yes: trimmed and lower-cased, it starts
/// with `y`.
pub open spec fn is_yes_spec(answer: Seq<char>) -> bool {
    is_prefix(seq!['y'], lowercase(trim(answer)))
}

/// Whether an answer to a yes/no question is yes (see `is_yes_spec`).
pub fn is_yes(answer: &str) -> (r: bool)
    ensures
        r == is_yes_spec(answer@),
{
    let t = trim_vec(&chars_of(answer));
    let l = to_lowercase(string_of(&t).as_str());
    let lv = chars_of(l.as_str());
    let mut y: Vec<char> = Vec::new();
    y.push('y');
    assert(y@ =~= seq!['y']);
    vec_starts_with(&lv, &y)
}

/// Whether an answer to "overwrite? (Y/n)" lets the write go ahead: an empty answer or
/// a yes.
pub open spec fn allows_overwrite_spec(answer: Seq<char>) -> bool {
    lowercase(trim(answer)).len() == 0 || is_prefix(seq!['y'], lowercase(trim(answer)))
}

/// Whether an answer to "overwrite? (Y/n)" lets the write go ahead.
pub fn allows_overwrite(answer: &str) -> (r: bool)
    ensures
        r == allows_overwrite_spec(answer@),
        trim(answer@).len() == 0 ==> r,
{
    let t = trim_vec(&chars_of(answer));
    let l = to_lowercase(string_of(&t).as_str());
    let lv = chars_of(l.as_str());
    let mut y: Vec<char> = Vec::new();
    y.push('y');
    assert(y@ =~= seq!['y']);
    lv.len() == 0 || vec_starts_with(&lv, &y)
}

/// State of the white-space splitter: finished words and the word being built.
pub open spec fn words_scan(s: Seq<char>) -> (Seq<Seq<char>>, Seq<char>)
    decreases s.len(),
{
    if s.len() == 0 {
        (Seq::empty(), Seq::empty())
    } else {
        let (done, cur) = words_scan(s.drop_last());
        if is_ws(s.last()) {
            if cur.len() > 0 {
                (done.push(cur), Seq::empty())
            } else {
                (done, cur)
            }
        } else {
            (done, cur.push(s.last()))
        }
    }
}

/// The white-space separated words of `s` (what `split_whitespace` yields).
pub open spec fn words(s: Seq<char>) -> Seq<Seq<char>> {
    let (done, cur) = words_scan(s);
    if cur.len() > 0 {
        done.push(cur)
    } else {
        done
    }
}

/// The items typed at the interactive exclusion prompt: the white-space separated
/// words, each without surrounding double and then single quotes, empty ones dropped.
pub open spec fn interactive_items(words: Seq<Seq<char>>) -> Seq<Seq<char>>
    decreases words.len(),
{
    if words.len() == 0 {
        Seq::empty()
    } else {
        let t = trim_char(trim_char(words.last(), '"'), '\'');
        if t.len() > 0 {
            interactive_items(words.drop_last()).push(t)
        } else {
            interactive_items(words.drop_last())
        }
    }
}

/// The items typed at the interactive exclusion prompt (see `interactive_items`).
pub fn parse_interactive_items(input: &str) -> (r: Vec<String>)
    ensures
        str_views(r@) == interactive_items(words(input@)),
{
    let v = chars_of(input);
    let mut words_v: Vec<Vec<char>> = Vec::new();
    let mut cur: Vec<char> = Vec::new();
    let mut i: usize = 0;
    assert(v@.take(0) =~= Seq::<char>::empty());
    while i < v.len()
        invariant
            i <= v.len(),
            words_scan(v@.take(i as int)) == (crate::paths::vviews(words_v@), cur@),
        decreases v.len() - i,
    {
        assert(v@.take(i + 1).drop_last() =~= v@.take(i as int));
        assert(v@.take(i + 1).last() == v@[i as int]);
        let c = v[i];
        if crate::text::is_whitespace(c) {
            if cur.len() > 0 {
                let ghost prev = words_v@;
                let ghost pc = cur@;
                words_v.push(cur);
                cur = Vec::new();
                assert(crate::paths::vviews(words_v@) =~= crate::paths::vviews(prev).push(pc));
                assert(cur@ =~= Seq::<char>::empty());
            }
        } else {
            cur.push(c);
        }
        i = i + 1;
    }
    assert(v@.take(v.len() as int) =~= v@);
    if cur.len() > 0 {
        let ghost prev = words_v@;
        let ghost pc = cur@;
        words_v.push(cur);
        assert(crate::paths::vviews(words_v@) =~= crate::paths::vviews(prev).push(pc));
    }
    let ghost ws = crate::paths::vviews(words_v@);
    assert(ws == words(input@));
    let mut out: Vec<String> = Vec::new();
    let mut k: usize = 0;
    assert(ws.take(0) =~= Seq::<Seq<char>>::empty());
    while k < words_v.len()
        invariant
            k <= words_v.len(),
            ws == crate::paths::vviews(words_v@),
            str_views(out@) == interactive_items(ws.take(k as int)),
        decreases words_v.len() - k,
    {
        assert(ws.take(k + 1).drop_last() =~= ws.take(k as int));
        assert(ws.take(k + 1).last() == words_v@[k as int]@);
        let a = trim_char_vec(&words_v[k], '"');
        let b = trim_char_vec(&a, '\'');
        if b.len() > 0 {
            let ghost prev = out@;
            out.push(string_of(&b));
            assert(str_views(out@) =~= str_views(prev).push(b@));
        }
        k = k + 1;
    }
    assert(ws.take(words_v.len() as int) =~= ws);
    out
}

/// What the interactive exclusion prompt's first answer chooses.
#[derive(Debug, Clone, Copy, PartialEq, Eq, Structural)]
pub enum ExclusionKind {
    Patterns,
    Dirs,
    Exts,
}

/// The kind chosen by the first answer: `1` patterns, `2` directories, `3` extensions
/// (after trimming); anything else cancels.
pub fn exclusion_choice(answer: &str) -> (r: Option<ExclusionKind>)
    ensures
        trim(answer@) == seq!['1'] ==> r == Some(ExclusionKind::Patterns),
        trim(answer@) == seq!['2'] ==> r == Some(ExclusionKind::Dirs),
        trim(answer@) == seq!['3'] ==> r == Some(ExclusionKind::Exts),
        trim(answer@) != seq!['1'] && trim(answer@) != seq!['2'] && trim(answer@) != seq!['3']
            ==> r is None,
{
    let t = trim_vec(&chars_of(answer));
    if t.len() != 1 {
        return None;
    }
    let c = t[0];
    assert(t@ =~= seq![c]);
    if c == '1' {
        Some(ExclusionKind::Patterns)
    } else if c == '2' {
        Some(ExclusionKind::Dirs)
    } else if c == '3' {
        Some(ExclusionKind::Exts)
    } else {
        None
    }
}

} // verus!
