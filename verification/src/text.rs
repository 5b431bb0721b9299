use vstd::prelude::*;
use vstd::string::StringExecFns;

verus! {

/// Unicode `White_Space` property, which is what `char::is_whitespace` tests.
pub open spec fn is_ws(c: char) -> bool {
    let u = c as u32;
    (0x09 <= u && u <= 0x0d) || u == 0x20 || u == 0x85 || u == 0xa0 || u == 0x1680 || (0x2000
        <= u && u <= 0x200a) || u == 0x2028 || u == 0x2029 || u == 0x202f || u == 0x205f || u
        == 0x3000
}

/// Whether `c` is white space (see `is_ws`).
pub fn is_whitespace(c: char) -> (r: bool)
    ensures
        r == is_ws(c),
{
    let u = c as u32;
    (0x09 <= u && u <= 0x0d) || u == 0x20 || u == 0x85 || u == 0xa0 || u == 0x1680 || (0x2000
        <= u && u <= 0x200a) || u == 0x2028 || u == 0x2029 || u == 0x202f || u == 0x205f || u
        == 0x3000
}

/// `s` without its leading white space.
pub open spec fn trim_start(s: Seq<char>) -> Seq<char>
    decreases s.len(),
{
    if s.len() > 0 && is_ws(s[0]) {
        trim_start(s.drop_first())
    } else {
        s
    }
}

/// `s` without its trailing white space.
pub open spec fn trim_end(s: Seq<char>) -> Seq<char>
    decreases s.len(),
{
    if s.len() > 0 && is_ws(s.last()) {
        trim_end(s.drop_last())
    } else {
        s
    }
}

/// `s` without leading and trailing white space (what `str::trim` gives).
pub open spec fn trim(s: Seq<char>) -> Seq<char> {
    trim_end(trim_start(s))
}

/// `s` without every leading and trailing occurrence of `c` (what `trim_matches(c)` gives).
pub open spec fn trim_char(s: Seq<char>, c: char) -> Seq<char> {
    trim_char_end(trim_char_start(s, c), c)
}

/// `s` without every leading occurrence of `c`.
pub open spec fn trim_char_start(s: Seq<char>, c: char) -> Seq<char>
    decreases s.len(),
{
    if s.len() > 0 && s[0] == c {
        trim_char_start(s.drop_first(), c)
    } else {
        s
    }
}

/// `s` without every trailing occurrence of `c`.
pub open spec fn trim_char_end(s: Seq<char>, c: char) -> Seq<char>
    decreases s.len(),
{
    if s.len() > 0 && s.last() == c {
        trim_char_end(s.drop_last(), c)
    } else {
        s
    }
}

/// Whether `p` is a prefix of `s`.
pub open spec fn is_prefix(p: Seq<char>, s: Seq<char>) -> bool {
    p.len() <= s.len() && s.take(p.len() as int) == p
}

/// Whether `p` is a suffix of `s`.
pub open spec fn is_suffix(p: Seq<char>, s: Seq<char>) -> bool {
    p.len() <= s.len() && s.skip(s.len() - p.len()) == p
}

/// Whether `c` occurs in `s`.
pub open spec fn has_char(s: Seq<char>, c: char) -> bool {
    exists|i: int| 0 <= i < s.len() && s[i] == c
}

/// Whether `p` occurs in `s` as a contiguous piece.
pub open spec fn has_substring(s: Seq<char>, p: Seq<char>) -> bool {
    exists|i: int| 0 <= i <= s.len() - p.len() && #[trigger] s.subrange(i, i + p.len()) == p
}

/// The pieces of `s` between occurrences of `sep` (what `str::split(sep)` yields):
/// there is always one more piece than there are separators.
pub open spec fn split(s: Seq<char>, sep: char) -> Seq<Seq<char>>
    decreases s.len(),
{
    if s.len() == 0 {
        seq![Seq::<char>::empty()]
    } else if s.last() == sep {
        split(s.drop_last(), sep).push(Seq::<char>::empty())
    } else {
        let pieces = split(s.drop_last(), sep);
        pieces.update(pieces.len() - 1, pieces.last().push(s.last()))
    }
}

/// `s` with every `from` replaced by `to`.
pub open spec fn replace_char(s: Seq<char>, from: char, to: char) -> Seq<char> {
    s.map_values(|c: char| if c == from { to } else { c })
}

/// `n` copies of `s` one after the other (what `str::repeat` gives).
pub open spec fn repeat(s: Seq<char>, n: nat) -> Seq<char>
    decreases n,
{
    if n == 0 {
        Seq::empty()
    } else {
        repeat(s, (n - 1) as nat) + s
    }
}

/// The decimal digits of `n`, most significant first, without leading zeros.
pub open spec fn decimal(n: nat) -> Seq<char>
    decreases n,
{
    if n < 10 {
        seq![digit_char(n)]
    } else {
        decimal(n / 10).push(digit_char(n % 10))
    }
}

/// The decimal digit for `d` (below ten).
pub open spec fn digit_char(d: nat) -> char {
    if d == 0 {
        '0'
    } else if d == 1 {
        '1'
    } else if d == 2 {
        '2'
    } else if d == 3 {
        '3'
    } else if d == 4 {
        '4'
    } else if d == 5 {
        '5'
    } else if d == 6 {
        '6'
    } else if d == 7 {
        '7'
    } else if d == 8 {
        '8'
    } else {
        '9'
    }
}

/// `s` padded on the left with `'0'` up to `width` characters (what `{:0>width$}` gives).
pub open spec fn zero_pad(s: Seq<char>, width: nat) -> Seq<char> {
    if s.len() >= width {
        s
    } else {
        Seq::new((width - s.len()) as nat, |i: int| '0') + s
    }
}

/// How two values compare.
#[derive(Debug, Clone, Copy, PartialEq, Eq, Structural)]
pub enum Order {
    Less,
    Equal,
    Greater,
}

/// The comparison seen from the other side.
pub open spec fn flip(o: Order) -> Order {
    match o {
        Order::Less => Order::Greater,
        Order::Equal => Order::Equal,
        Order::Greater => Order::Less,
    }
}

/// Lexicographic comparison of two character sequences by code point, which is how
/// `str` values are ordered (UTF-8 keeps the code point order).
pub open spec fn lex_order(a: Seq<char>, b: Seq<char>) -> Order
    decreases a.len(),
{
    if a.len() == 0 && b.len() == 0 {
        Order::Equal
    } else if a.len() == 0 {
        Order::Less
    } else if b.len() == 0 {
        Order::Greater
    } else if (a[0] as u32) < (b[0] as u32) {
        Order::Less
    } else if (a[0] as u32) > (b[0] as u32) {
        Order::Greater
    } else {
        lex_order(a.drop_first(), b.drop_first())
    }
}

/// Lexicographic order is transitive: a text not after a second, which is not after a
/// third, is not after the third.
pub proof fn lemma_lex_order_trans(a: Seq<char>, b: Seq<char>, c: Seq<char>)
    requires
        lex_order(a, b) != Order::Greater,
        lex_order(b, c) != Order::Greater,
    ensures
        lex_order(a, c) != Order::Greater,
    decreases a.len(),
{
    if a.len() > 0 && b.len() > 0 && c.len() > 0 && (a[0] as u32) == (b[0] as u32) && (b[0] as u32)
        == (c[0] as u32) {
        lemma_lex_order_trans(a.drop_first(), b.drop_first(), c.drop_first());
    }
}

/// Swapping two sequences flips their order, and only equal sequences compare equal.
pub proof fn lemma_lex_order_flip(a: Seq<char>, b: Seq<char>)
    ensures
        lex_order(b, a) == flip(lex_order(a, b)),
        lex_order(a, b) == Order::Equal <==> a == b,
    decreases a.len(),
{
    if a.len() > 0 && b.len() > 0 && a[0] as u32 == b[0] as u32 {
        lemma_lex_order_flip(a.drop_first(), b.drop_first());
        vstd::utf8::char_u32_cast(a[0], a[0] as u32);
        vstd::utf8::char_u32_cast(b[0], b[0] as u32);
        assert(a[0] == b[0]);
        if a.drop_first() == b.drop_first() {
            assert(a == seq![a[0]] + a.drop_first());
            assert(b == seq![b[0]] + b.drop_first());
        }
        if a == b {
            assert(a.drop_first() == b.drop_first());
        }
    } else if a.len() > 0 && b.len() > 0 {
        if a == b {
            assert(a[0] == b[0]);
        }
    } else if a.len() == 0 && b.len() == 0 {
        assert(a =~= b);
    }
}

impl Order {
    /// Whether this is `Less`.
    pub fn is_less(&self) -> (r: bool)
        ensures
            r == (*self == Order::Less),
    {
        match self {
            Order::Less => true,
            _ => false,
        }
    }

    /// Whether this is `Equal`.
    pub fn is_equal(&self) -> (r: bool)
        ensures
            r == (*self == Order::Equal),
    {
        match self {
            Order::Equal => true,
            _ => false,
        }
    }
}

/// Compares two character sequences lexicographically (see `lex_order`).
pub fn lex_compare(a: &Vec<char>, b: &Vec<char>) -> (r: Order)
    ensures
        r == lex_order(a@, b@),
{
    let mut i: usize = 0;
    assert(a@.skip(0) == a@);
    assert(b@.skip(0) == b@);
    while i < a.len() && i < b.len()
        invariant
            i <= a.len(),
            i <= b.len(),
            lex_order(a@, b@) == lex_order(a@.skip(i as int), b@.skip(i as int)),
        decreases a.len() - i,
    {
        let x = a[i];
        let y = b[i];
        assert(a@.skip(i as int)[0] == x);
        assert(b@.skip(i as int)[0] == y);
        if (x as u32) < (y as u32) {
            return Order::Less;
        } else if (x as u32) > (y as u32) {
            return Order::Greater;
        }
        assert(a@.skip(i as int).drop_first() == a@.skip(i + 1));
        assert(b@.skip(i as int).drop_first() == b@.skip(i + 1));
        i = i + 1;
    }
    if i == a.len() && i == b.len() {
        Order::Equal
    } else if i == a.len() {
        Order::Less
    } else {
        Order::Greater
    }
}

/// The characters of `s`, in order.
pub fn chars_of(s: &str) -> (r: Vec<char>)
    ensures
        r@ == s@,
{
    let mut r: Vec<char> = Vec::new();
    for c in it: s.chars()
        invariant
            r@ == it.seq().take(it.index() as int),
            it.seq() == s@,
    {
        r.push(c);
    }
    r
}

/// `String::push`: appends one character.
#[verifier::external_body]
pub(crate) fn push_char(s: &mut String, c: char)
    ensures
        final(s)@ == old(s)@.push(c),
{
    s.push(c)
}

/// `String::insert`: puts `c` at byte position `idx`, which lies on a character
/// boundary; that position is character index `k`.
#[verifier::external_body]
pub(crate) fn string_insert(s: &mut String, idx: usize, c: char)
    requires
        is_byte_boundary(old(s)@, idx as int),
    ensures
        exists|k: int|
            0 <= k <= old(s)@.len() && byte_offset(old(s)@, k) == idx && final(s)@ == old(
                s,
            )@.insert(k, c),
{
    s.insert(idx, c)
}

/// `String::remove`: takes out the character that starts at byte position `idx`.
#[verifier::external_body]
pub(crate) fn string_remove(s: &mut String, idx: usize) -> (r: char)
    requires
        is_byte_boundary(old(s)@, idx as int),
        (idx as int) < byte_len(old(s)@),
    ensures
        exists|k: int|
            0 <= k < old(s)@.len() && byte_offset(old(s)@, k) == idx && final(s)@ == old(
                s,
            )@.remove(k) && r == old(s)@[k],
{
    s.remove(idx)
}

/// Number of UTF-8 bytes in `s`.
pub open spec fn byte_len(s: Seq<char>) -> int {
    (vstd::utf8::encode_utf8(s).len() as usize) as int
}

/// Byte position at which character `k` of `s` starts.
pub open spec fn byte_offset(s: Seq<char>, k: int) -> int {
    byte_len(s.take(k))
}

/// Whether byte position `idx` of `s` lies on a character boundary.
pub open spec fn is_byte_boundary(s: Seq<char>, idx: int) -> bool {
    vstd::utf8::is_char_boundary(vstd::utf8::encode_utf8(s), idx)
}

/// A string holding exactly the characters of `v`.
pub fn string_of(v: &Vec<char>) -> (r: String)
    ensures
        r@ == v@,
{
    let mut r = String::new();
    let mut i: usize = 0;
    while i < v.len()
        invariant
            i <= v.len(),
            r@ == v@.take(i as int),
        decreases v.len() - i,
    {
        push_char(&mut r, v[i]);
        assert(v@.take(i as int).push(v@[i as int]) == v@.take(i + 1));
        i = i + 1;
    }
    assert(v@.take(v.len() as int) == v@);
    r
}

/// Appends `t` to `s`.
pub fn push_str(s: &mut String, t: &str)
    ensures
        final(s)@ == old(s)@ + t@,
{
    s.append(t);
}

/// A copy of `s`.
pub fn copy_str(s: &str) -> (r: String)
    ensures
        r@ == s@,
{
    String::from_str(s)
}

/// The lower-case form of a string (name for what `str::to_lowercase` returns).
pub uninterp spec fn lowercase(s: Seq<char>) -> Seq<char>;

/// `str::to_lowercase`: the lower-case form of `s`, by the Unicode case tables. Every
/// character maps to one or more characters, so the result is empty exactly when `s`
/// is; nothing more is stated of which characters it gives, and the result is a
/// function of `s` alone.
#[verifier::external_body]
pub(crate) fn to_lowercase(s: &str) -> (r: String)
    ensures
        r@ == lowercase(s@),
        (r@.len() == 0) == (s@.len() == 0),
{
    s.to_lowercase()
}

/// `s` without leading and trailing white space.
pub fn trim_str(s: &str) -> (r: String)
    ensures
        r@ == trim(s@),
{
    let v = chars_of(s);
    let t = trim_vec(&v);
    string_of(&t)
}

proof fn lemma_trim_start_skip(s: Seq<char>, i: int)
    requires
        0 <= i <= s.len(),
        forall|j: int| 0 <= j < i ==> is_ws(s[j]),
    ensures
        trim_start(s) == trim_start(s.skip(i)),
    decreases i,
{
    if i > 0 {
        assert(s.drop_first().skip(i - 1) == s.skip(i));
        lemma_trim_start_skip(s.drop_first(), i - 1);
    } else {
        assert(s.skip(0) == s);
    }
}

proof fn lemma_trim_end_take(s: Seq<char>, i: int)
    requires
        0 <= i <= s.len(),
        forall|j: int| i <= j < s.len() ==> is_ws(s[j]),
    ensures
        trim_end(s) == trim_end(s.take(i)),
    decreases s.len() - i,
{
    if i < s.len() {
        assert(s.drop_last().take(i) == s.take(i));
        lemma_trim_end_take(s.drop_last(), i);
    } else {
        assert(s.take(i) == s);
    }
}

/// The characters of `v` without leading and trailing white space.
pub fn trim_vec(v: &Vec<char>) -> (r: Vec<char>)
    ensures
        r@ == trim(v@),
{
    let mut a: usize = 0;
    while a < v.len() && is_whitespace(v[a])
        invariant
            a <= v.len(),
            forall|j: int| 0 <= j < a ==> is_ws(v@[j]),
        decreases v.len() - a,
    {
        a = a + 1;
    }
    proof {
        lemma_trim_start_skip(v@, a as int);
    }
    let mut b: usize = v.len();
    while b > a && is_whitespace(v[b - 1])
        invariant
            a <= b <= v.len(),
            forall|j: int| b <= j < v.len() ==> is_ws(v@[j]),
        decreases b,
    {
        b = b - 1;
    }
    let ghost st = v@.skip(a as int);
    proof {
        if a < v.len() {
            assert(!is_ws(st[0]));
        } else {
            assert(st.len() == 0);
        }
        assert(trim_start(st) == st);
        assert forall|j: int| (b - a) <= j < st.len() implies is_ws(st[j]) by {
            assert(st[j] == v@[a + j]);
        }
        lemma_trim_end_take(st, b - a);
        let tk = st.take(b - a);
        if b > a {
            assert(tk.last() == v@[b - 1]);
        }
        assert(trim_end(tk) == tk);
    }
    let mut r: Vec<char> = Vec::new();
    let mut i = a;
    while i < b
        invariant
            a <= i <= b <= v.len(),
            r@ == v@.subrange(a as int, i as int),
        decreases b - i,
    {
        r.push(v[i]);
        assert(v@.subrange(a as int, i as int).push(v@[i as int]) == v@.subrange(
            a as int,
            i + 1,
        ));
        i = i + 1;
    }
    assert(r@ == st.take(b - a));
    r
}

/// A piece with no white space at either end: not empty, and neither its first nor its
/// last character is white space.
pub open spec fn tidy(w: Seq<char>) -> bool {
    w.len() > 0 && !is_ws(w[0]) && !is_ws(w.last())
}

proof fn lemma_trim_start_first(s: Seq<char>)
    ensures
        trim_start(s).len() > 0 ==> !is_ws(trim_start(s)[0]),
    decreases s.len(),
{
    if s.len() > 0 && is_ws(s[0]) {
        lemma_trim_start_first(s.drop_first());
    }
}

proof fn lemma_trim_end_prefix(s: Seq<char>)
    ensures
        trim_end(s).len() <= s.len(),
        trim_end(s) == s.take(trim_end(s).len() as int),
        trim_end(s).len() > 0 ==> !is_ws(trim_end(s).last()),
    decreases s.len(),
{
    if s.len() > 0 && is_ws(s.last()) {
        lemma_trim_end_prefix(s.drop_last());
        assert(s.drop_last().take(trim_end(s).len() as int) =~= s.take(trim_end(s).len() as int));
    } else {
        assert(s.take(s.len() as int) =~= s);
    }
}

/// A trimmed text that is not empty has no white space at either end.
pub proof fn lemma_trim_tidy(s: Seq<char>)
    ensures
        trim(s).len() > 0 ==> tidy(trim(s)),
{
    lemma_trim_start_first(s);
    lemma_trim_end_prefix(trim_start(s));
    if trim(s).len() > 0 {
        assert(trim(s)[0] == trim_start(s)[0]);
    }
}

/// A tidy text is its own trim.
pub proof fn lemma_trim_of_tidy(w: Seq<char>)
    requires
        tidy(w),
    ensures
        trim(w) == w,
{
    assert(trim_start(w) == w);
    assert(trim_end(w) == w);
}

/// Trimming keeps out every character that the text did not hold.
pub proof fn lemma_trim_keeps_out(s: Seq<char>, c: char)
    requires
        !s.contains(c),
    ensures
        !trim(s).contains(c),
{
    lemma_trim_start_keeps_out(s, c);
    lemma_trim_end_prefix(trim_start(s));
    let t = trim_start(s);
    let r = trim(s);
    if r.contains(c) {
        let j = choose|j: int| 0 <= j < r.len() && r[j] == c;
        assert(r[j] == t[j]);
    }
}

proof fn lemma_trim_start_keeps_out(s: Seq<char>, c: char)
    requires
        !s.contains(c),
    ensures
        !trim_start(s).contains(c),
    decreases s.len(),
{
    if s.len() > 0 && is_ws(s[0]) {
        let d = s.drop_first();
        if d.contains(c) {
            let j = choose|j: int| 0 <= j < d.len() && d[j] == c;
            assert(s[j + 1] == c);
        }
        lemma_trim_start_keeps_out(d, c);
    }
}

/// A text without the separator splits into itself alone.
pub proof fn lemma_split_without_sep(s: Seq<char>, sep: char)
    requires
        !s.contains(sep),
    ensures
        split(s, sep) == seq![s],
    decreases s.len(),
{
    if s.len() == 0 {
        assert(s =~= Seq::<char>::empty());
        assert(seq![Seq::<char>::empty()] =~= seq![s]);
    } else {
        let d = s.drop_last();
        if d.contains(sep) {
            let j = choose|j: int| 0 <= j < d.len() && d[j] == sep;
            assert(s[j] == sep);
        }
        assert(s[s.len() - 1] == s.last());
        lemma_split_without_sep(d, sep);
        assert(d.push(s.last()) =~= s);
        assert(split(s, sep) =~= seq![s]);
    }
}

/// Text without the separator added at the end of a split text lengthens its last piece.
pub proof fn lemma_split_append(s: Seq<char>, t: Seq<char>, sep: char)
    requires
        !t.contains(sep),
    ensures
        split(s + t, sep) == split(s, sep).update(
            split(s, sep).len() - 1,
            split(s, sep).last() + t,
        ),
        split(s, sep).len() > 0,
    decreases t.len(),
{
    lemma_split_pieces_without_sep(s, sep);
    if t.len() == 0 {
        assert(s + t =~= s);
        let p = split(s, sep);
        assert(p.last() + t =~= p.last());
        assert(p.update(p.len() - 1, p.last()) =~= p);
    } else {
        let u = t.drop_last();
        let c = t.last();
        if u.contains(sep) {
            let j = choose|j: int| 0 <= j < u.len() && u[j] == sep;
            assert(t[j] == sep);
        }
        assert(t[t.len() - 1] == c);
        lemma_split_append(s, u, sep);
        assert((s + t).drop_last() =~= s + u);
        assert((s + t).last() == c);
        let p = split(s, sep);
        let q = split(s + u, sep);
        assert(q.last() == p.last() + u);
        assert((p.last() + u).push(c) =~= p.last() + t);
        assert(split(s + t, sep) =~= p.update(p.len() - 1, p.last() + t));
    }
}

/// A separator added at the end of a text starts a new, empty piece.
pub proof fn lemma_split_push_sep(s: Seq<char>, sep: char)
    ensures
        split(s.push(sep), sep) == split(s, sep).push(Seq::<char>::empty()),
{
    assert(s.push(sep).drop_last() =~= s);
}

/// A decimal numeral holds digits only: no newline.
pub proof fn lemma_decimal_no_newline(n: nat)
    ensures
        !decimal(n).contains('\n'),
    decreases n,
{
    if n >= 10 {
        lemma_decimal_no_newline(n / 10);
        let d = decimal(n / 10);
        let r = decimal(n);
        if r.contains('\n') {
            let j = choose|j: int| 0 <= j < r.len() && r[j] == '\n';
            if j < d.len() {
                assert(r[j] == d[j]);
            }
        }
    }
}

/// A numeral padded with zeros holds no newline.
pub proof fn lemma_zero_pad_no_newline(n: nat, width: nat)
    ensures
        !zero_pad(decimal(n), width).contains('\n'),
{
    lemma_decimal_no_newline(n);
    let d = decimal(n);
    let r = zero_pad(d, width);
    if r.contains('\n') && d.len() < width {
        let j = choose|j: int| 0 <= j < r.len() && r[j] == '\n';
        let k = (width - d.len()) as int;
        if j >= k {
            assert(r[j] == d[j - k]);
        }
    }
}

/// No piece of a split holds the separator.
pub proof fn lemma_split_pieces_without_sep(s: Seq<char>, sep: char)
    ensures
        split(s, sep).len() > 0,
        forall|i: int| 0 <= i < split(s, sep).len() ==> !(#[trigger] split(s, sep)[i]).contains(sep),
    decreases s.len(),
{
    if s.len() > 0 {
        let pieces = split(s.drop_last(), sep);
        lemma_split_pieces_without_sep(s.drop_last(), sep);
        if s.last() == sep {
            assert forall|i: int| 0 <= i < split(s, sep).len() implies !(#[trigger] split(s, sep)[i]).contains(sep) by {
                if i < pieces.len() {
                    assert(split(s, sep)[i] == pieces[i]);
                } else {
                    assert(split(s, sep)[i] =~= Seq::<char>::empty());
                }
            }
        } else {
            let l = pieces.last();
            assert(!pieces[pieces.len() - 1].contains(sep));
            assert forall|i: int| 0 <= i < split(s, sep).len() implies !(#[trigger] split(s, sep)[i]).contains(sep) by {
                if i < pieces.len() - 1 {
                    assert(split(s, sep)[i] == pieces[i]);
                } else {
                    let w = l.push(s.last());
                    assert(split(s, sep)[i] == w);
                    if w.contains(sep) {
                        let j = choose|j: int| 0 <= j < w.len() && w[j] == sep;
                        if j < l.len() {
                            assert(l[j] == sep);
                        }
                    }
                }
            }
        }
    }
}

/// The UTF-8 encoding of two texts one after the other is the two encodings one after
/// the other.
pub proof fn lemma_encode_utf8_concat(a: Seq<char>, b: Seq<char>)
    ensures
        vstd::utf8::encode_utf8(a + b) == vstd::utf8::encode_utf8(a) + vstd::utf8::encode_utf8(b),
    decreases a.len(),
{
    if a.len() == 0 {
        assert(a + b =~= b);
        assert(vstd::utf8::encode_utf8(a) =~= Seq::<u8>::empty());
        assert(Seq::<u8>::empty() + vstd::utf8::encode_utf8(b) =~= vstd::utf8::encode_utf8(b));
    } else {
        lemma_encode_utf8_concat(a.drop_first(), b);
        assert((a + b)[0] == a[0]);
        assert((a + b).drop_first() =~= a.drop_first() + b);
        assert(vstd::utf8::encode_utf8(a + b) =~= vstd::utf8::encode_scalar(a[0] as u32)
            + vstd::utf8::encode_utf8(a.drop_first() + b));
    }
}

/// Every character takes at least one byte.
pub proof fn lemma_encode_utf8_len(s: Seq<char>)
    ensures
        vstd::utf8::encode_utf8(s).len() >= s.len(),
    decreases s.len(),
{
    if s.len() > 0 {
        lemma_encode_utf8_len(s.drop_first());
        assert(vstd::utf8::encode_scalar(s[0] as u32).len() >= 1);
    }
}

/// In an ASCII text every position, the end included, is a character boundary, and
/// the text takes one byte per character.
pub proof fn lemma_ascii_boundaries(s: Seq<char>, idx: int)
    requires
        vstd::utf8::is_ascii_chars(s),
        0 <= idx <= s.len(),
    ensures
        is_byte_boundary(s, idx),
        vstd::utf8::encode_utf8(s).len() == s.len(),
{
    let b = vstd::utf8::encode_utf8(s);
    vstd::utf8::is_ascii_chars_encode_utf8(s);
    vstd::utf8::encode_utf8_valid_utf8(s);
    if idx < s.len() {
        vstd::utf8::is_char_boundary_iff_not_is_continuation_byte(b, idx);
        vstd::utf8::is_ascii_chars_nat_bound(s);
        assert((s[idx] as nat) < 128);
        assert(s[idx] as u8 == b[idx]);
        assert(!vstd::utf8::is_continuation_byte(b[idx]));
    } else {
        vstd::utf8::is_char_boundary_start_end_of_seq(b);
    }
}

} // verus!
