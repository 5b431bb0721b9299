use vstd::prelude::*;

use crate::text::{chars_of, string_of};

verus! {

/// `s` after the first `m` (empty when there is none): the rest of a text after the end
/// of an escape sequence.
pub open spec fn after_m(s: Seq<char>) -> Seq<char>
    decreases s.len(),
{
    if s.len() == 0 {
        s
    } else if s[0] == 'm' {
        s.drop_first()
    } else {
        after_m(s.drop_first())
    }
}

/// `s` without its terminal escape sequences: an escape character followed by `[`
/// is dropped together with everything up to and including the next `m`; any other
/// character is kept.
pub open spec fn without_ansi(s: Seq<char>) -> Seq<char>
    decreases s.len(),
{
    if s.len() == 0 {
        s
    } else if s[0] == '\u{1b}' && s.len() > 1 && s[1] == '[' {
        proof {
            lemma_after_m_len(s.skip(2));
        }
        without_ansi(after_m(s.skip(2)))
    } else {
        seq![s[0]] + without_ansi(s.drop_first())
    }
}

/// The rest of a text after an escape sequence is a part of its end, no longer than it.
pub proof fn lemma_after_m_len(s: Seq<char>)
    ensures
        after_m(s).len() <= s.len(),
        exists|k: int| 0 <= k <= s.len() && after_m(s) == s.skip(k),
    decreases s.len(),
{
    if s.len() == 0 {
        assert(s.skip(0) =~= s);
    } else if s[0] == 'm' {
        assert(s.drop_first() =~= s.skip(1));
    } else {
        lemma_after_m_len(s.drop_first());
        let k = choose|k: int| 0 <= k <= s.drop_first().len() && after_m(s.drop_first()) == s.drop_first().skip(k);
        assert(s.drop_first().skip(k) =~= s.skip(k + 1));
    }
}

/// Removes terminal escape sequences from `s` (see `without_ansi`).
pub fn strip_ansi(s: &str) -> (r: String)
    ensures
        r@ == without_ansi(s@),
{
    let v = chars_of(s);
    let mut out: Vec<char> = Vec::new();
    let mut i: usize = 0;
    assert(v@.skip(0) =~= v@);
    while i < v.len()
        invariant
            i <= v.len(),
            out@ + without_ansi(v@.skip(i as int)) == without_ansi(v@),
        decreases v.len() - i,
    {
        let ghost rest = v@.skip(i as int);
        let c = v[i];
        if c == '\u{1b}' && i + 1 < v.len() && v[i + 1] == '[' {
            let mut j = i + 2;
            proof {
                assert(rest[0] == c && rest[1] == v@[i + 1]);
                assert(rest.skip(2) =~= v@.skip(j as int));
            }
            while j < v.len() && v[j] != 'm'
                invariant
                    i + 2 <= j <= v.len(),
                    after_m(rest.skip(2)) == after_m(v@.skip(j as int)),
                decreases v.len() - j,
            {
                assert(v@.skip(j as int)[0] == v@[j as int]);
                assert(v@.skip(j as int).drop_first() =~= v@.skip(j + 1));
                j = j + 1;
            }
            if j < v.len() {
                assert(v@.skip(j as int)[0] == 'm');
                assert(v@.skip(j as int).drop_first() =~= v@.skip(j + 1));
                j = j + 1;
            } else {
                assert(v@.skip(j as int).len() == 0);
            }
            assert(after_m(rest.skip(2)) == v@.skip(j as int));
            i = j;
        } else {
            out.push(c);
            proof {
                assert(rest[0] == c);
                if c == '\u{1b}' && i + 1 < v.len() {
                    assert(rest[1] == v@[i + 1]);
                }
                assert(rest.drop_first() =~= v@.skip(i + 1));
                assert(without_ansi(rest) == seq![c] + without_ansi(rest.drop_first()));
                assert(out@ + without_ansi(v@.skip(i + 1)) =~= out@.drop_last() + without_ansi(rest));
            }
            i = i + 1;
        }
    }
    assert(v@.skip(v.len() as int) =~= Seq::<char>::empty());
    assert(out@ + Seq::<char>::empty() =~= out@);
    string_of(&out)
}

/// Text without escape characters passes unchanged.
pub proof fn lemma_plain_text_unchanged(s: Seq<char>)
    requires
        forall|i: int| 0 <= i < s.len() ==> s[i] != '\u{1b}',
    ensures
        without_ansi(s) == s,
    decreases s.len(),
{
    if s.len() > 0 {
        assert(s[0] != '\u{1b}');
        let t = s.drop_first();
        assert forall|i: int| 0 <= i < t.len() implies t[i] != '\u{1b}' by {
            assert(t[i] == s[i + 1]);
        }
        lemma_plain_text_unchanged(t);
        assert(seq![s[0]] + t =~= s);
    }
}

} // verus!
