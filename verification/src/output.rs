use vstd::prelude::*;
use vstd::string::StringExecFns;

use crate::files::{str_eq, FileEntry};
use crate::paths::{split_chars, vviews};
use crate::text::{chars_of, decimal, digit_char, has_substring, lemma_decimal_no_newline, lemma_split_append, lemma_split_pieces_without_sep, lemma_split_push_sep, lemma_zero_pad_no_newline, push_char, push_str, repeat, split, string_of, trim_char, trim_char_end, trim_char_start, zero_pad};

verus! {

/// The layout options of the combined output: header style, whether separators are
/// drawn, the separator text, where separators go, line numbers, zero padding.
pub type Format = (Seq<char>, bool, Seq<char>, Seq<char>, bool, bool);

/// The header of a file: its absolute path, nothing, or (for any other style) its
/// relative path.
pub open spec fn header_for(style: Seq<char>, e: FileEntry) -> Seq<char> {
    if style == "absolute"@ {
        e.absolute@
    } else if style == "none"@ {
        Seq::empty()
    } else {
        e.relative@
    }
}

/// `s` without one trailing carriage return.
pub open spec fn strip_cr(s: Seq<char>) -> Seq<char> {
    if s.len() > 0 && s.last() == '\r' {
        s.drop_last()
    } else {
        s
    }
}

/// The lines of a text that does not end with a newline (as `str::lines` gives them):
/// the pieces between newlines, each but the last without a carriage return before its
/// newline.
pub open spec fn content_lines(c: Seq<char>) -> Seq<Seq<char>> {
    let p = split(c, '\n');
    Seq::new(p.len(), |j: int| if j < p.len() - 1 { strip_cr(p[j]) } else { p[j] })
}

/// The number of line `j` (from 1) among `total`: zero-padded to the width of `total`
/// when padding is on.
pub open spec fn line_number(j: nat, total: nat, padding: bool) -> Seq<char> {
    if padding {
        zero_pad(decimal(j), decimal(total).len())
    } else {
        decimal(j)
    }
}

/// The text between a line number and its line.
pub open spec fn gutter() -> Seq<char> {
    seq![' ', '\u{2502}', ' ']
}

/// The first `k` lines, each preceded by its number and the gutter and followed by a
/// newline.
pub open spec fn numbered_lines(lines: Seq<Seq<char>>, k: nat, padding: bool) -> Seq<char>
    decreases k,
{
    if k == 0 {
        Seq::empty()
    } else {
        numbered_lines(lines, (k - 1) as nat, padding) + line_number(k, lines.len(), padding)
            + gutter() + lines[k - 1] + seq!['\n']
    }
}

/// The body of a file: its numbered lines, or its text and a newline.
pub open spec fn file_body(c: Seq<char>, line_numbers: bool, padding: bool) -> Seq<char> {
    if line_numbers {
        numbered_lines(content_lines(c), content_lines(c).len(), padding)
    } else {
        c.push('\n')
    }
}

/// Length used for separator lines: the header's UTF-8 byte length, or 80 without a
/// header.
pub open spec fn separator_len(header: Seq<char>) -> nat {
    if header.len() == 0 {
        80
    } else {
        (vstd::utf8::encode_utf8(header).len() as usize) as nat
    }
}

/// `prefix` followed by the block of the `idx`-th of `n` files: nothing when the file's
/// text (without leading and trailing newlines) is empty; otherwise a newline, the
/// optional separator above, the header and a colon and newline (when there is a header),
/// the optional separator below, a newline, the body, and a newline unless it is the last
/// file.
pub open spec fn append_block(
    prefix: Seq<char>,
    idx: int,
    n: int,
    e: FileEntry,
    raw: Seq<char>,
    f: Format,
) -> Seq<char> {
    let (style, seps, sep_char, placement, line_numbers, padding) = f;
    let c = trim_char(raw, '\n');
    let header = header_for(style, e);
    let sep = repeat(sep_char, separator_len(header));
    let above = seps && (placement == "above"@ || placement == "both"@);
    let below = seps && (placement == "below"@ || placement == "both"@);
    let s1 = prefix.push('\n');
    let s2 = if above {
        (s1 + sep).push('\n')
    } else {
        s1
    };
    let s3 = if header.len() > 0 {
        (s2 + header).push(':').push('\n')
    } else {
        s2
    };
    let s4 = if below {
        (s3 + sep).push('\n')
    } else {
        s3
    };
    let s5 = s4.push('\n') + file_body(c, line_numbers, padding);
    if c.len() == 0 {
        prefix
    } else if idx + 1 < n {
        s5.push('\n')
    } else {
        s5
    }
}

/// The blocks of the first `k` files.
pub open spec fn output_blocks(
    entries: Seq<FileEntry>,
    contents: Seq<Seq<char>>,
    k: nat,
    f: Format,
) -> Seq<char>
    decreases k,
{
    if k == 0 {
        Seq::empty()
    } else {
        append_block(
            output_blocks(entries, contents, (k - 1) as nat, f),
            k - 1,
            entries.len() as int,
            entries[k - 1],
            contents[k - 1],
            f,
        )
    }
}

/// The combined output: every file's block, then a final newline.
pub open spec fn combined_output(entries: Seq<FileEntry>, contents: Seq<Seq<char>>, f: Format) -> Seq<
    char,
> {
    output_blocks(entries, contents, entries.len(), f).push('\n')
}

/// The decimal digits of `n`.
pub fn decimal_digits(n: usize) -> (r: Vec<char>)
    ensures
        r@ == decimal(n as nat),
    decreases n,
{
    let d = n % 10;
    let c = if d == 0 {
        '0'
    } else if d == 1 {
        '1'
    } else if d == 2 {
        '2'
    } else if d == 3 {
        '3'
    } else if d == 4 {
        '4'
    } else if d == 5 {
        '5'
    } else if d == 6 {
        '6'
    } else if d == 7 {
        '7'
    } else if d == 8 {
        '8'
    } else {
        '9'
    };
    assert(c == digit_char(d as nat));
    if n < 10 {
        let mut v: Vec<char> = Vec::new();
        v.push(c);
        assert(v@ =~= seq![digit_char(n as nat)]);
        v
    } else {
        let mut v = decimal_digits(n / 10);
        v.push(c);
        v
    }
}

/// Line number text (see `line_number`).
fn line_number_text(j: usize, total: usize, padding: bool) -> (r: Vec<char>)
    ensures
        r@ == line_number(j as nat, total as nat, padding),
{
    let digits = decimal_digits(j);
    if !padding {
        return digits;
    }
    let width = decimal_digits(total).len();
    if digits.len() >= width {
        return digits;
    }
    let mut out: Vec<char> = Vec::new();
    let pad = width - digits.len();
    let mut i: usize = 0;
    while i < pad
        invariant
            i <= pad,
            out@ == Seq::new(i as nat, |k: int| '0'),
        decreases pad - i,
    {
        out.push('0');
        assert(out@ =~= Seq::new((i + 1) as nat, |k: int| '0'));
        i = i + 1;
    }
    let ghost zeros = out@;
    let mut k: usize = 0;
    while k < digits.len()
        invariant
            k <= digits.len(),
            out@ == zeros + digits@.take(k as int),
        decreases digits.len() - k,
    {
        out.push(digits[k]);
        assert(zeros + digits@.take(k + 1) =~= (zeros + digits@.take(k as int)).push(digits@[k as int]));
        k = k + 1;
    }
    assert(digits@.take(digits.len() as int) =~= digits@);
    out
}

/// Appends the characters of `v` to `s`.
fn push_chars(s: &mut String, v: &Vec<char>)
    ensures
        final(s)@ == old(s)@ + v@,
{
    let mut i: usize = 0;
    while i < v.len()
        invariant
            i <= v.len(),
            s@ == old(s)@ + v@.take(i as int),
        decreases v.len() - i,
    {
        push_char(s, v[i]);
        assert(old(s)@ + v@.take(i + 1) =~= (old(s)@ + v@.take(i as int)).push(v@[i as int]));
        i = i + 1;
    }
    assert(v@.take(v.len() as int) =~= v@);
}

/// `v` without leading and trailing occurrences of `c`.
pub fn trim_char_vec(v: &Vec<char>, c: char) -> (r: Vec<char>)
    ensures
        r@ == trim_char(v@, c),
{
    let mut a: usize = 0;
    assert(v@.skip(0) =~= v@);
    while a < v.len() && v[a] == c
        invariant
            a <= v.len(),
            trim_char_start(v@, c) == trim_char_start(v@.skip(a as int), c),
        decreases v.len() - a,
    {
        assert(v@.skip(a as int).drop_first() =~= v@.skip(a + 1));
        a = a + 1;
    }
    let ghost st = v@.skip(a as int);
    assert(trim_char_start(st, c) == st);
    let mut b: usize = v.len();
    assert(st.take((b - a) as int) =~= st);
    while b > a && v[b - 1] == c
        invariant
            a <= b <= v.len(),
            st == v@.skip(a as int),
            trim_char_end(st, c) == trim_char_end(st.take(b - a), c),
        decreases b,
    {
        assert(st.take(b - a).drop_last() =~= st.take(b - a - 1));
        assert(st.take(b - a).last() == v@[b - 1]);
        b = b - 1;
    }
    proof {
        let tk = st.take(b - a);
        if b > a {
            assert(tk.last() == v@[b - 1]);
        }
        assert(trim_char_end(tk, c) == tk);
    }
    let mut r: Vec<char> = Vec::new();
    let mut i = a;
    while i < b
        invariant
            a <= i <= b <= v.len(),
            r@ == v@.subrange(a as int, i as int),
        decreases b - i,
    {
        r.push(v[i]);
        assert(v@.subrange(a as int, i + 1) =~= v@.subrange(a as int, i as int).push(v@[i as int]));
        i = i + 1;
    }
    assert(r@ =~= st.take(b - a));
    r
}

/// Appends `n` copies of `t` to `s`.
fn push_repeat(s: &mut String, t: &str, n: usize)
    ensures
        final(s)@ == old(s)@ + repeat(t@, n as nat),
{
    let mut i: usize = 0;
    while i < n
        invariant
            i <= n,
            s@ == old(s)@ + repeat(t@, i as nat),
        decreases n - i,
    {
        push_str(s, t);
        assert(old(s)@ + repeat(t@, (i + 1) as nat) =~= old(s)@ + repeat(t@, i as nat) + t@);
        i = i + 1;
    }
}

/// Appends a file's body (see `file_body`) to `out`.
fn push_body(out: &mut String, c: &Vec<char>, line_numbers: bool, padding: bool)
    ensures
        final(out)@ == old(out)@ + file_body(c@, line_numbers, padding),
{
    if !line_numbers {
        push_chars(out, c);
        push_char(out, '\n');
        return;
    }
    let pieces = split_chars(c, '\n');
    let ghost lines = content_lines(c@);
    let total = pieces.len();
    assert(lines.len() == total);
    let mut j: usize = 0;
    while j < total
        invariant
            j <= total,
            total == pieces@.len(),
            vviews(pieces@) == split(c@, '\n'),
            lines == content_lines(c@),
            lines.len() == total,
            out@ == old(out)@ + numbered_lines(lines, j as nat, padding),
        decreases total - j,
    {
        let num = line_number_text(j + 1, total, padding);
        push_chars(out, &num);
        push_char(out, ' ');
        push_char(out, '\u{2502}');
        push_char(out, ' ');
        let piece = &pieces[j];
        assert(piece@ == split(c@, '\n')[j as int]);
        push_line_text(out, piece, j + 1 < total);
        push_char(out, '\n');
        assert(out@ =~= old(out)@ + numbered_lines(lines, (j + 1) as nat, padding));
        j = j + 1;
    }
}

/// Appends `piece` to `out`, without one trailing carriage return when `strip`.
fn push_line_text(out: &mut String, piece: &Vec<char>, strip: bool)
    ensures
        final(out)@ == old(out)@ + (if strip {
            strip_cr(piece@)
        } else {
            piece@
        }),
{
    if strip && piece.len() > 0 && piece[piece.len() - 1] == '\r' {
        let mut k: usize = 0;
        while k + 1 < piece.len()
            invariant
                k < piece.len(),
                out@ == old(out)@ + piece@.take(k as int),
            decreases piece.len() - k,
        {
            push_char(out, piece[k]);
            assert(old(out)@ + piece@.take(k + 1) =~= (old(out)@ + piece@.take(k as int)).push(
                piece@[k as int],
            ));
            k = k + 1;
        }
        assert(piece@.take(k as int) =~= piece@.drop_last());
    } else {
        push_chars(out, piece);
    }
}

/// Appends the separator line of `header` to `out`.
fn push_separator(out: &mut String, sep_char: &str, header: &str)
    ensures
        final(out)@ == (old(out)@ + repeat(sep_char@, separator_len(header@))).push('\n'),
{
    let len = if header.is_empty() {
        80
    } else {
        header.len()
    };
    push_repeat(out, sep_char, len);
    push_char(out, '\n');
}

/// Combines the files' texts (`contents[i]` is the text of `entries[i]`) into one output
/// laid out as `combined_output` describes.
pub fn generate_output(
    entries: &Vec<FileEntry>,
    contents: &Vec<String>,
    header_style: &str,
    separators: bool,
    sep_char: &str,
    sep_placement: &str,
    line_numbers: bool,
    padding: bool,
) -> (r: String)
    requires
        contents@.len() == entries@.len(),
    ensures
        r@ == combined_output(
            entries@,
            contents@.map_values(|s: String| s@),
            (header_style@, separators, sep_char@, sep_placement@, line_numbers, padding),
        ),
{
    let ghost f: Format = (header_style@, separators, sep_char@, sep_placement@, line_numbers, padding);
    let ghost cs = contents@.map_values(|s: String| s@);
    let is_absolute = str_eq(header_style, "absolute");
    let is_none = str_eq(header_style, "none");
    let above = separators && (str_eq(sep_placement, "above") || str_eq(sep_placement, "both"));
    let below = separators && (str_eq(sep_placement, "below") || str_eq(sep_placement, "both"));
    let mut out = String::new();
    let n = entries.len();
    let mut idx: usize = 0;
    while idx < n
        invariant
            idx <= n,
            n == entries@.len(),
            contents@.len() == n,
            cs == contents@.map_values(|s: String| s@),
            f == (header_style@, separators, sep_char@, sep_placement@, line_numbers, padding),
            is_absolute == (header_style@ == "absolute"@),
            is_none == (header_style@ == "none"@),
            above == (separators && (sep_placement@ == "above"@ || sep_placement@ == "both"@)),
            below == (separators && (sep_placement@ == "below"@ || sep_placement@ == "both"@)),
            out@ == output_blocks(entries@, cs, idx as nat, f),
        decreases n - idx,
    {
        let ghost before = out@;
        push_file_block(
            &mut out,
            idx,
            n,
            &entries[idx],
            contents[idx].as_str(),
            Ghost(f),
            is_absolute,
            is_none,
            above,
            below,
            sep_char,
            line_numbers,
            padding,
        );
        assert(cs[idx as int] == contents@[idx as int]@);
        assert(out@ == output_blocks(entries@, cs, (idx + 1) as nat, f));
        idx = idx + 1;
    }
    push_char(&mut out, '\n');
    out
}

/// Appends the block of one file (see `append_block`) to `out`.
fn push_file_block(
    out: &mut String,
    idx: usize,
    n: usize,
    e: &FileEntry,
    content: &str,
    Ghost(f): Ghost<Format>,
    is_absolute: bool,
    is_none: bool,
    above: bool,
    below: bool,
    sep_char: &str,
    line_numbers: bool,
    padding: bool,
)
    requires
        idx < n,
        is_absolute == (f.0 == "absolute"@),
        is_none == (f.0 == "none"@),
        above == (f.1 && (f.3 == "above"@ || f.3 == "both"@)),
        below == (f.1 && (f.3 == "below"@ || f.3 == "both"@)),
        sep_char@ == f.2,
        line_numbers == f.4,
        padding == f.5,
    ensures
        final(out)@ == append_block(old(out)@, idx as int, n as int, *e, content@, f),
{
    let raw = chars_of(content);
    let c = trim_char_vec(&raw, '\n');
    if c.len() == 0 {
        return;
    }
    let header: String = if is_absolute {
        e.absolute.clone()
    } else if is_none {
        String::new()
    } else {
        e.relative.clone()
    };
    assert(header@ == header_for(f.0, *e));
    push_char(out, '\n');
    if above {
        push_separator(out, sep_char, header.as_str());
    }
    if !header.as_str().is_empty() {
        push_str(out, header.as_str());
        push_char(out, ':');
        push_char(out, '\n');
    }
    if below {
        push_separator(out, sep_char, header.as_str());
    }
    push_char(out, '\n');
    push_body(out, &c, line_numbers, padding);
    if idx + 1 < n {
        push_char(out, '\n');
    }
}

/// Smaller numbers never have more digits.
proof fn lemma_decimal_len_monotone(a: nat, b: nat)
    requires
        a <= b,
    ensures
        decimal(a).len() <= decimal(b).len(),
    decreases b,
{
    if b >= 10 {
        if a >= 10 {
            assert(a / 10 <= b / 10) by (nonlinear_arith)
                requires
                    a <= b,
            ;
            assert(b / 10 < b) by (nonlinear_arith)
                requires
                    b >= 10,
            ;
            lemma_decimal_len_monotone(a / 10, b / 10);
        } else {
            assert(b / 10 < b) by (nonlinear_arith)
                requires
                    b >= 10,
            ;
            lemma_decimal_len_monotone(0, b / 10);
        }
    }
}

/// With padding, every line number of a file has the width of its last line number.
pub proof fn lemma_padded_line_numbers(j: nat, total: nat)
    requires
        1 <= j <= total,
    ensures
        line_number(j, total, true).len() == decimal(total).len(),
{
    lemma_decimal_len_monotone(j, total);
}

/// A file's block only adds to what comes before it.
proof fn lemma_block_extends(prefix: Seq<char>, idx: int, n: int, e: FileEntry, raw: Seq<char>, f: Format)
    ensures
        append_block(prefix, idx, n, e, raw, f).len() >= prefix.len(),
        append_block(prefix, idx, n, e, raw, f).subrange(0, prefix.len() as int) == prefix,
{
    let r = append_block(prefix, idx, n, e, raw, f);
    let (style, seps, sep_char, placement, line_numbers, padding) = f;
    let c = trim_char(raw, '\n');
    if c.len() == 0 {
        assert(r.subrange(0, prefix.len() as int) =~= prefix);
    } else {
        let header = header_for(style, e);
        let sep = repeat(sep_char, separator_len(header));
        let above = seps && (placement == "above"@ || placement == "both"@);
        let below = seps && (placement == "below"@ || placement == "both"@);
        let s1 = prefix.push('\n');
        let s2 = if above { (s1 + sep).push('\n') } else { s1 };
        let s3 = if header.len() > 0 { (s2 + header).push(':').push('\n') } else { s2 };
        let s4 = if below { (s3 + sep).push('\n') } else { s3 };
        let s5 = s4.push('\n') + file_body(c, line_numbers, padding);
        assert(s2.subrange(0, prefix.len() as int) =~= prefix);
        assert(s3.subrange(0, prefix.len() as int) =~= prefix);
        assert(s4.subrange(0, prefix.len() as int) =~= prefix);
        assert(s5.subrange(0, prefix.len() as int) =~= prefix);
        assert(r.subrange(0, prefix.len() as int) =~= prefix);
    }
}

/// The blocks of fewer files begin the blocks of more.
proof fn lemma_blocks_extend(entries: Seq<FileEntry>, contents: Seq<Seq<char>>, j: nat, k: nat, f: Format)
    requires
        j <= k,
    ensures
        output_blocks(entries, contents, k, f).len() >= output_blocks(entries, contents, j, f).len(),
        output_blocks(entries, contents, k, f).subrange(0, output_blocks(entries, contents, j, f).len() as int)
            == output_blocks(entries, contents, j, f),
    decreases k,
{
    let bj = output_blocks(entries, contents, j, f);
    if j == k {
        assert(bj.subrange(0, bj.len() as int) =~= bj);
    } else {
        lemma_blocks_extend(entries, contents, j, (k - 1) as nat, f);
        let prev = output_blocks(entries, contents, (k - 1) as nat, f);
        lemma_block_extends(prev, k - 1, entries.len() as int, entries[k - 1], contents[k - 1], f);
        let bk = output_blocks(entries, contents, k, f);
        assert(bk.subrange(0, bj.len() as int) =~= prev.subrange(0, bj.len() as int));
    }
}

/// Without line numbers, the text of every file that is not empty (leading and
/// trailing newlines aside) appears, unchanged, in the combined output.
pub proof fn lemma_texts_appear(entries: Seq<FileEntry>, contents: Seq<Seq<char>>, f: Format, i: int)
    requires
        0 <= i < entries.len(),
        contents.len() == entries.len(),
        !f.4,
        trim_char(contents[i], '\n').len() > 0,
    ensures
        has_substring(combined_output(entries, contents, f), trim_char(contents[i], '\n')),
{
    let (style, seps, sep_char, placement, line_numbers, padding) = f;
    let c = trim_char(contents[i], '\n');
    let prefix = output_blocks(entries, contents, i as nat, f);
    let e = entries[i];
    let header = header_for(style, e);
    let sep = repeat(sep_char, separator_len(header));
    let above = seps && (placement == "above"@ || placement == "both"@);
    let below = seps && (placement == "below"@ || placement == "both"@);
    let s1 = prefix.push('\n');
    let s2 = if above { (s1 + sep).push('\n') } else { s1 };
    let s3 = if header.len() > 0 { (s2 + header).push(':').push('\n') } else { s2 };
    let s4 = if below { (s3 + sep).push('\n') } else { s3 };
    let s5 = s4.push('\n') + file_body(c, line_numbers, padding);
    let q: int = s4.len() as int + 1;
    let ql: int = q + c.len();
    let block = output_blocks(entries, contents, (i + 1) as nat, f);
    assert(block == append_block(prefix, i, entries.len() as int, e, contents[i], f));
    assert(s5.subrange(q, ql) =~= c);
    assert(block.subrange(q, ql) =~= c);
    lemma_blocks_extend(entries, contents, (i + 1) as nat, entries.len(), f);
    let all = output_blocks(entries, contents, entries.len(), f);
    let out = combined_output(entries, contents, f);
    assert(out.subrange(q, ql) =~= all.subrange(0, block.len() as int).subrange(q, ql));
    assert(out.subrange(q, ql) =~= c);
}

/// No line of a text holds a newline.
proof fn lemma_content_lines_no_newline(c: Seq<char>)
    ensures
        forall|j: int| 0 <= j < content_lines(c).len() ==> !(#[trigger] content_lines(c)[j]).contains('\n'),
{
    let p = split(c, '\n');
    lemma_split_pieces_without_sep(c, '\n');
    assert forall|j: int| 0 <= j < content_lines(c).len() implies !(#[trigger] content_lines(c)[j]).contains('\n') by {
        let l = content_lines(c)[j];
        assert(!p[j].contains('\n'));
        if l.contains('\n') {
            let k = choose|k: int| 0 <= k < l.len() && l[k] == '\n';
            if j < p.len() - 1 && p[j].len() > 0 && p[j].last() == '\r' {
                assert(l == p[j].drop_last());
                assert(p[j][k] == '\n');
            } else {
                assert(l == p[j]);
            }
        }
    }
}

proof fn lemma_numbered_pieces(lines: Seq<Seq<char>>, k: nat, padding: bool)
    requires
        k <= lines.len(),
        forall|j: int| 0 <= j < lines.len() ==> !(#[trigger] lines[j]).contains('\n'),
    ensures
        split(numbered_lines(lines, k, padding), '\n').len() == k + 1,
        split(numbered_lines(lines, k, padding), '\n').last().len() == 0,
        forall|j: int|
            0 <= j < k ==> #[trigger] split(numbered_lines(lines, k, padding), '\n')[j] == line_number(
                (j + 1) as nat,
                lines.len(),
                padding,
            ) + gutter() + lines[j],
    decreases k,
{
    if k == 0 {
        assert(split(Seq::<char>::empty(), '\n') == seq![Seq::<char>::empty()]);
    } else {
        let k1 = (k - 1) as nat;
        lemma_numbered_pieces(lines, k1, padding);
        let prev = numbered_lines(lines, k1, padding);
        let num = line_number(k, lines.len(), padding);
        let l = lines[k - 1];
        let t = num + gutter() + l;
        if padding {
            lemma_zero_pad_no_newline(k, decimal(lines.len()).len());
        } else {
            lemma_decimal_no_newline(k);
        }
        assert(!gutter().contains('\n')) by {
            if gutter().contains('\n') {
                let j = choose|j: int| 0 <= j < gutter().len() && gutter()[j] == '\n';
            }
        }
        assert(!l.contains('\n'));
        assert(!t.contains('\n')) by {
            if t.contains('\n') {
                let j = choose|j: int| 0 <= j < t.len() && t[j] == '\n';
                if j < num.len() {
                    assert(num[j] == '\n');
                } else if j < num.len() + 3 {
                    assert(gutter()[j - num.len()] == '\n');
                } else {
                    assert(l[j - num.len() - 3] == '\n');
                }
            }
        }
        lemma_split_append(prev, t, '\n');
        lemma_split_push_sep(prev + t, '\n');
        assert(numbered_lines(lines, k, padding) =~= (prev + t).push('\n'));
        let p = split(prev, '\n');
        assert(p.last() + t =~= t);
        let q = split(numbered_lines(lines, k, padding), '\n');
        assert(q == p.update(k1 as int, t).push(Seq::<char>::empty()));
        assert forall|j: int| 0 <= j < k implies #[trigger] q[j] == line_number(
            (j + 1) as nat,
            lines.len(),
            padding,
        ) + gutter() + lines[j] by {
            if j < k1 {
                assert(q[j] == p[j]);
            }
        }
    }
}

/// With line numbers on, a file's body has one line for each line of its text, blank
/// lines included, and ends with a newline: line `j` (from 0) is the number `j + 1`
/// (padded to the width of the line count when padding is on), the gutter, and line
/// `j` of the text.
pub proof fn lemma_numbered_body(c: Seq<char>, padding: bool)
    ensures
        ({
            let lines = content_lines(c);
            let pieces = split(file_body(c, true, padding), '\n');
            &&& pieces.len() == lines.len() + 1
            &&& pieces.last().len() == 0
            &&& forall|j: int|
                0 <= j < lines.len() ==> #[trigger] pieces[j] == line_number(
                    (j + 1) as nat,
                    lines.len(),
                    padding,
                ) + gutter() + lines[j]
        }),
{
    lemma_content_lines_no_newline(c);
    lemma_numbered_pieces(content_lines(c), content_lines(c).len(), padding);
}

} // verus!
