use vstd::prelude::*;

use crate::config::SortingMode;
use crate::files::{filter_entries, FileEntry};
use crate::paths::{split_chars, vviews};
use crate::text::{chars_of, flip, lemma_split_append, lemma_split_push_sep, lemma_split_without_sep, lemma_lex_order_flip, lemma_lex_order_trans, lex_compare, lex_order, lowercase, split, string_of, to_lowercase, Order};

verus! {

/// The part of a path after its last `/` (the whole path when there is none).
pub open spec fn last_piece(s: Seq<char>) -> Seq<char> {
    split(s, '/').last()
}

/// Order of two numbers.
pub open spec fn len_order(x: nat, y: nat) -> Order {
    if x < y {
        Order::Less
    } else if x > y {
        Order::Greater
    } else {
        Order::Equal
    }
}

/// Tree order of two `/`-separated paths from component `i` on: components are compared
/// case-insensitively, then exactly; when they agree and exactly one of the paths ends
/// there, that one (a file) goes first when `files_first`, last otherwise; when one path
/// runs out, the shorter goes first.
pub open spec fn tree_order_from(pa: Seq<Seq<char>>, pb: Seq<Seq<char>>, i: nat, files_first: bool) -> Order
    decreases pa.len() - i,
{
    if i >= pa.len() || i >= pb.len() {
        len_order(pa.len(), pb.len())
    } else {
        let lo = lex_order(lowercase(pa[i as int]), lowercase(pb[i as int]));
        let ex = lex_order(pa[i as int], pb[i as int]);
        let a_ends = i == pa.len() - 1;
        let b_ends = i == pb.len() - 1;
        if lo != Order::Equal {
            lo
        } else if ex != Order::Equal {
            ex
        } else if a_ends != b_ends {
            if a_ends == files_first {
                Order::Less
            } else {
                Order::Greater
            }
        } else {
            tree_order_from(pa, pb, i + 1, files_first)
        }
    }
}

/// How two entries are ordered under a sorting mode: flat mode compares the lower-case
/// file names (the part of the relative path after the last `/`); the tree modes compare
/// the relative paths component by component (see `tree_order_from`).
pub open spec fn entry_order(mode: SortingMode, a: FileEntry, b: FileEntry) -> Order {
    match mode {
        SortingMode::Flat => lex_order(
            lowercase(last_piece(a.relative@)),
            lowercase(last_piece(b.relative@)),
        ),
        SortingMode::FilesFirst => tree_order_from(
            split(a.relative@, '/'),
            split(b.relative@, '/'),
            0,
            true,
        ),
        SortingMode::DirsFirst => tree_order_from(
            split(a.relative@, '/'),
            split(b.relative@, '/'),
            0,
            false,
        ),
    }
}

/// `s` with `x` inserted after every element that `x` does not precede, scanning from
/// the end: the stable insertion of `x` into an ordered `s`.
pub open spec fn insert_sorted(mode: SortingMode, s: Seq<FileEntry>, x: FileEntry) -> Seq<FileEntry>
    decreases s.len(),
{
    if s.len() == 0 {
        seq![x]
    } else if entry_order(mode, x, s.last()) == Order::Less {
        insert_sorted(mode, s.drop_last(), x).push(s.last())
    } else {
        s.push(x)
    }
}

/// `s` stably sorted under `mode`.
pub open spec fn sorted_entries(mode: SortingMode, s: Seq<FileEntry>) -> Seq<FileEntry>
    decreases s.len(),
{
    if s.len() == 0 {
        Seq::empty()
    } else {
        insert_sorted(mode, sorted_entries(mode, s.drop_last()), s.last())
    }
}

fn lower_vec(v: &Vec<char>) -> (r: Vec<char>)
    ensures
        r@ == lowercase(v@),
{
    let s = string_of(v);
    let l = to_lowercase(s.as_str());
    chars_of(l.as_str())
}

fn tree_compare(a: &str, b: &str, files_first: bool) -> (r: Order)
    ensures
        r == tree_order_from(split(a@, '/'), split(b@, '/'), 0, files_first),
{
    let av = chars_of(a);
    let bv = chars_of(b);
    let pa = split_chars(&av, '/');
    let pb = split_chars(&bv, '/');
    let ghost sa = vviews(pa@);
    let ghost sb = vviews(pb@);
    let mut i: usize = 0;
    while i < pa.len() && i < pb.len()
        invariant
            sa == vviews(pa@),
            sb == vviews(pb@),
            sa == split(a@, '/'),
            sb == split(b@, '/'),
            i <= pa.len(),
            i <= pb.len(),
            tree_order_from(sa, sb, 0, files_first) == tree_order_from(sa, sb, i as nat, files_first),
        decreases pa.len() - i,
    {
        assert(sa[i as int] == pa@[i as int]@);
        assert(sb[i as int] == pb@[i as int]@);
        let la = lower_vec(&pa[i]);
        let lb = lower_vec(&pb[i]);
        let lo = lex_compare(&la, &lb);
        if !lo.is_equal() {
            return lo;
        }
        let ex = lex_compare(&pa[i], &pb[i]);
        if !ex.is_equal() {
            return ex;
        }
        let a_ends = i == pa.len() - 1;
        let b_ends = i == pb.len() - 1;
        if a_ends != b_ends {
            if a_ends == files_first {
                return Order::Less;
            } else {
                return Order::Greater;
            }
        }
        i = i + 1;
    }
    if pa.len() < pb.len() {
        Order::Less
    } else if pa.len() > pb.len() {
        Order::Greater
    } else {
        Order::Equal
    }
}

fn last_piece_vec(s: &str) -> (r: Vec<char>)
    ensures
        r@ == last_piece(s@),
{
    let v = chars_of(s);
    let pieces = split_chars(&v, '/');
    proof {
        lemma_split_nonempty(v@, '/');
    }
    assert(vviews(pieces@).last() == pieces@[pieces@.len() - 1]@);
    let p = &pieces[pieces.len() - 1];
    let mut out: Vec<char> = Vec::new();
    let mut i: usize = 0;
    while i < p.len()
        invariant
            i <= p.len(),
            out@ == p@.take(i as int),
        decreases p.len() - i,
    {
        out.push(p[i]);
        assert(p@.take(i as int).push(p@[i as int]) =~= p@.take(i + 1));
        i = i + 1;
    }
    assert(p@.take(p.len() as int) =~= p@);
    out
}

proof fn lemma_split_nonempty(s: Seq<char>, sep: char)
    ensures
        split(s, sep).len() >= 1,
    decreases s.len(),
{
    if s.len() > 0 {
        lemma_split_nonempty(s.drop_last(), sep);
    }
}

/// How `a` and `b` are ordered under `mode` (see `entry_order`).
pub fn compare_entries(mode: &SortingMode, a: &FileEntry, b: &FileEntry) -> (r: Order)
    ensures
        r == entry_order(*mode, *a, *b),
{
    match mode {
        SortingMode::Flat => {
            proof {
                lemma_split_nonempty(a.relative@, '/');
                lemma_split_nonempty(b.relative@, '/');
            }
            let na = last_piece_vec(a.relative.as_str());
            let nb = last_piece_vec(b.relative.as_str());
            let la = lower_vec(&na);
            let lb = lower_vec(&nb);
            lex_compare(&la, &lb)
        },
        SortingMode::FilesFirst => tree_compare(a.relative.as_str(), b.relative.as_str(), true),
        SortingMode::DirsFirst => tree_compare(a.relative.as_str(), b.relative.as_str(), false),
    }
}

/// Sorts the entries stably in the order of `mode` (see `entry_order`).
pub fn sort_tree_order(entries: &mut Vec<FileEntry>, mode: &SortingMode)
    ensures
        final(entries)@ == sorted_entries(*mode, old(entries)@),
{
    let n = entries.len();
    let mut out: Vec<FileEntry> = Vec::new();
    let mut i: usize = 0;
    assert(entries@.take(0) =~= Seq::<FileEntry>::empty());
    while i < n
        invariant
            i <= n,
            n == entries@.len(),
            entries@ == old(entries)@,
            out@ == sorted_entries(*mode, entries@.take(i as int)),
        decreases n - i,
    {
        let x = entries[i].copy();
        let ghost s = out@;
        let mut j = out.len();
        assert(s.take(j as int) =~= s);
        assert(s.skip(j as int) =~= Seq::<FileEntry>::empty());
        while j > 0 && compare_entries(mode, &x, &out[j - 1]).is_less()
            invariant
                j <= out@.len(),
                out@ == s,
                insert_sorted(*mode, s, x) == insert_sorted(*mode, s.take(j as int), x) + s.skip(
                    j as int,
                ),
            decreases j,
        {
            proof {
                let t = s.take(j as int);
                assert(t.last() == s[j - 1]);
                assert(t.drop_last() =~= s.take(j - 1));
                assert(insert_sorted(*mode, t, x) == insert_sorted(*mode, s.take(j - 1), x).push(
                    s[j - 1],
                ));
                assert(insert_sorted(*mode, s.take(j - 1), x).push(s[j - 1]) + s.skip(j as int)
                    =~= insert_sorted(*mode, s.take(j - 1), x) + s.skip(j - 1));
            }
            j = j - 1;
        }
        proof {
            let t = s.take(j as int);
            if j > 0 {
                assert(t.last() == s[j - 1]);
            }
            assert(insert_sorted(*mode, t, x) == t.push(x));
            assert(t.push(x) + s.skip(j as int) =~= s.insert(j as int, x));
        }
        out.insert(j, x);
        proof {
            assert(entries@.take(i + 1).drop_last() =~= entries@.take(i as int));
            assert(entries@.take(i + 1).last() == entries@[i as int]);
        }
        i = i + 1;
    }
    assert(entries@.take(n as int) =~= entries@);
    *entries = out;
}

/// Swapping two paths flips their tree order.
proof fn lemma_tree_order_flip(pa: Seq<Seq<char>>, pb: Seq<Seq<char>>, i: nat, files_first: bool)
    ensures
        tree_order_from(pb, pa, i, files_first) == flip(tree_order_from(pa, pb, i, files_first)),
    decreases pa.len() - i,
{
    if i < pa.len() && i < pb.len() {
        lemma_lex_order_flip(lowercase(pa[i as int]), lowercase(pb[i as int]));
        lemma_lex_order_flip(pa[i as int], pb[i as int]);
        lemma_tree_order_flip(pa, pb, i + 1, files_first);
    }
}

/// Swapping two entries flips their order, under every sorting mode.
pub proof fn lemma_entry_order_flip(mode: SortingMode, a: FileEntry, b: FileEntry)
    ensures
        entry_order(mode, b, a) == flip(entry_order(mode, a, b)),
{
    match mode {
        SortingMode::Flat => {
            lemma_lex_order_flip(lowercase(last_piece(a.relative@)), lowercase(last_piece(b.relative@)));
        },
        SortingMode::FilesFirst => {
            lemma_tree_order_flip(split(a.relative@, '/'), split(b.relative@, '/'), 0, true);
        },
        SortingMode::DirsFirst => {
            lemma_tree_order_flip(split(a.relative@, '/'), split(b.relative@, '/'), 0, false);
        },
    }
}

/// How two path components compare: case-insensitively first, then exactly.
pub open spec fn component_order(x: Seq<char>, y: Seq<char>) -> Order {
    let lo = lex_order(lowercase(x), lowercase(y));
    if lo != Order::Equal {
        lo
    } else {
        lex_order(x, y)
    }
}

proof fn lemma_component_order(x: Seq<char>, y: Seq<char>, z: Seq<char>)
    ensures
        component_order(x, y) == Order::Equal <==> x == y,
        component_order(y, x) == flip(component_order(x, y)),
        component_order(x, y) != Order::Greater && component_order(y, z) != Order::Greater
            ==> component_order(x, z) != Order::Greater,
{
    let (lx, ly, lz) = (lowercase(x), lowercase(y), lowercase(z));
    lemma_lex_order_flip(lx, ly);
    lemma_lex_order_flip(ly, lz);
    lemma_lex_order_flip(lx, lz);
    lemma_lex_order_flip(x, y);
    lemma_lex_order_flip(y, z);
    lemma_lex_order_flip(x, z);
    if component_order(x, y) != Order::Greater && component_order(y, z) != Order::Greater {
        lemma_lex_order_trans(lx, ly, lz);
        if lex_order(lx, ly) == Order::Equal && lex_order(ly, lz) == Order::Equal {
            lemma_lex_order_trans(x, y, z);
        }
    }
}

/// Tree order is transitive from component `i` on (where all three paths have one).
proof fn lemma_tree_order_trans(pa: Seq<Seq<char>>, pb: Seq<Seq<char>>, pc: Seq<Seq<char>>, i: nat, files_first: bool)
    requires
        i < pa.len(),
        i < pb.len(),
        i < pc.len(),
        tree_order_from(pa, pb, i, files_first) != Order::Greater,
        tree_order_from(pb, pc, i, files_first) != Order::Greater,
    ensures
        tree_order_from(pa, pc, i, files_first) != Order::Greater,
    decreases pa.len() - i,
{
    let (a, b, c) = (pa[i as int], pb[i as int], pc[i as int]);
    lemma_component_order(a, b, c);
    lemma_component_order(b, c, a);
    lemma_component_order(a, c, b);
    let a_ends = i == pa.len() - 1;
    let b_ends = i == pb.len() - 1;
    let c_ends = i == pc.len() - 1;
    let ends = |e: bool| if e == files_first { Order::Less } else { Order::Greater };
    assert(tree_order_from(pa, pb, i, files_first) == if component_order(a, b) != Order::Equal {
        component_order(a, b)
    } else if a_ends != b_ends {
        ends(a_ends)
    } else {
        tree_order_from(pa, pb, i + 1, files_first)
    });
    assert(tree_order_from(pb, pc, i, files_first) == if component_order(b, c) != Order::Equal {
        component_order(b, c)
    } else if b_ends != c_ends {
        ends(b_ends)
    } else {
        tree_order_from(pb, pc, i + 1, files_first)
    });
    assert(tree_order_from(pa, pc, i, files_first) == if component_order(a, c) != Order::Equal {
        component_order(a, c)
    } else if a_ends != c_ends {
        ends(a_ends)
    } else {
        tree_order_from(pa, pc, i + 1, files_first)
    });
    if component_order(a, b) == Order::Equal && component_order(b, c) == Order::Equal {
        assert(a == b && b == c);
        if a_ends == b_ends && b_ends == c_ends {
            if a_ends {
                assert(tree_order_from(pa, pc, i + 1, files_first) == len_order(pa.len(), pc.len()));
            } else {
                lemma_tree_order_trans(pa, pb, pc, i + 1, files_first);
            }
        }
    }
}

/// Entry order is transitive under every sorting mode.
pub proof fn lemma_entry_order_trans(mode: SortingMode, a: FileEntry, b: FileEntry, c: FileEntry)
    requires
        entry_order(mode, a, b) != Order::Greater,
        entry_order(mode, b, c) != Order::Greater,
    ensures
        entry_order(mode, a, c) != Order::Greater,
{
    let (sa, sb, sc) = (split(a.relative@, '/'), split(b.relative@, '/'), split(c.relative@, '/'));
    lemma_split_nonempty(a.relative@, '/');
    lemma_split_nonempty(b.relative@, '/');
    lemma_split_nonempty(c.relative@, '/');
    match mode {
        SortingMode::Flat => {
            lemma_lex_order_trans(
                lowercase(last_piece(a.relative@)),
                lowercase(last_piece(b.relative@)),
                lowercase(last_piece(c.relative@)),
            );
        },
        SortingMode::FilesFirst => {
            lemma_tree_order_trans(sa, sb, sc, 0, true);
        },
        SortingMode::DirsFirst => {
            lemma_tree_order_trans(sa, sb, sc, 0, false);
        },
    }
}

/// Every entry of `s` comes no later, under `mode`, than every entry after it.
pub open spec fn entries_sorted(mode: SortingMode, s: Seq<FileEntry>) -> bool {
    forall|i: int, j: int| 0 <= i < j < s.len() ==> entry_order(mode, #[trigger] s[i], #[trigger] s[j]) != Order::Greater
}

proof fn lemma_insert_sorted(mode: SortingMode, s: Seq<FileEntry>, x: FileEntry)
    requires
        entries_sorted(mode, s),
    ensures
        entries_sorted(mode, insert_sorted(mode, s, x)),
        insert_sorted(mode, s, x).to_multiset() == s.to_multiset().insert(x),
        insert_sorted(mode, s, x).len() == s.len() + 1,
        forall|k: int|
            0 <= k < insert_sorted(mode, s, x).len() ==> #[trigger] insert_sorted(mode, s, x)[k] == x
                || s.contains(insert_sorted(mode, s, x)[k]),
    decreases s.len(),
{
    broadcast use vstd::seq_lib::to_multiset_build;
    let r = insert_sorted(mode, s, x);
    if s.len() == 0 {
        assert(r =~= seq![x]);
        assert(seq![x] =~= Seq::<FileEntry>::empty().push(x));
        assert(s =~= Seq::<FileEntry>::empty());
    } else {
        let l = s.last();
        let t = s.drop_last();
        assert(s =~= t.push(l));
        lemma_entry_order_flip(mode, x, l);
        if entry_order(mode, x, l) == Order::Less {
            assert(entries_sorted(mode, t)) by {
                assert forall|i: int, j: int| 0 <= i < j < t.len() implies entry_order(mode, #[trigger] t[i], #[trigger] t[j]) != Order::Greater by {
                    assert(t[i] == s[i] && t[j] == s[j]);
                }
            }
            lemma_insert_sorted(mode, t, x);
            let q = insert_sorted(mode, t, x);
            assert(r == q.push(l));
            assert forall|i: int, j: int| 0 <= i < j < r.len() implies entry_order(mode, #[trigger] r[i], #[trigger] r[j]) != Order::Greater by {
                if j < q.len() {
                    assert(r[i] == q[i] && r[j] == q[j]);
                } else {
                    assert(r[i] == q[i] && r[j] == l);
                    if q[i] != x {
                        let m = choose|m: int| 0 <= m < t.len() && t[m] == q[i];
                        assert(s[m] == t[m] && s[s.len() - 1] == l);
                    }
                }
            }
            assert forall|k: int| 0 <= k < r.len() implies #[trigger] r[k] == x || s.contains(r[k]) by {
                if k < q.len() {
                    assert(r[k] == q[k]);
                    if q[k] != x {
                        let m = choose|m: int| 0 <= m < t.len() && t[m] == q[k];
                        assert(s[m] == t[m]);
                    }
                } else {
                    assert(r[k] == l && s[s.len() - 1] == l);
                }
            }
            assert(q.push(l).to_multiset() == q.to_multiset().insert(l));
            assert(t.push(l).to_multiset() == t.to_multiset().insert(l));
            assert(r.to_multiset() =~= s.to_multiset().insert(x));
        } else {
            assert(r == s.push(x));
            assert forall|i: int, j: int| 0 <= i < j < r.len() implies entry_order(mode, #[trigger] r[i], #[trigger] r[j]) != Order::Greater by {
                if j < s.len() {
                    assert(r[i] == s[i] && r[j] == s[j]);
                } else {
                    assert(r[i] == s[i] && r[j] == x);
                    if i < s.len() - 1 {
                        assert(entry_order(mode, s[i], s[s.len() - 1]) != Order::Greater);
                        lemma_entry_order_trans(mode, s[i], l, x);
                    }
                }
            }
            assert forall|k: int| 0 <= k < r.len() implies #[trigger] r[k] == x || s.contains(r[k]) by {
                if k < s.len() {
                    assert(r[k] == s[k]);
                }
            }
        }
    }
}

/// Sorting keeps every entry, as many times as it occurs, and puts them in order: no
/// entry comes after one that it precedes under the sorting mode.
pub proof fn lemma_sorted_entries(mode: SortingMode, s: Seq<FileEntry>)
    ensures
        sorted_entries(mode, s).to_multiset() == s.to_multiset(),
        entries_sorted(mode, sorted_entries(mode, s)),
    decreases s.len(),
{
    broadcast use vstd::seq_lib::to_multiset_build;
    if s.len() == 0 {
        assert(sorted_entries(mode, s) =~= s);
    } else {
        let t = s.drop_last();
        lemma_sorted_entries(mode, t);
        lemma_insert_sorted(mode, sorted_entries(mode, t), s.last());
        assert(s =~= t.push(s.last()));
        assert(t.push(s.last()).to_multiset() == t.to_multiset().insert(s.last()));
    }
}

/// The entries that tie with `x` under `mode`.
pub open spec fn ties_with(mode: SortingMode, x: FileEntry) -> spec_fn(FileEntry) -> bool {
    |e: FileEntry| entry_order(mode, e, x) == Order::Equal
}

/// Two entries that both tie with a third tie with each other.
proof fn lemma_ties_tie(mode: SortingMode, a: FileEntry, b: FileEntry, x: FileEntry)
    requires
        entry_order(mode, a, x) == Order::Equal,
        entry_order(mode, b, x) == Order::Equal,
    ensures
        entry_order(mode, a, b) == Order::Equal,
{
    lemma_entry_order_flip(mode, a, x);
    lemma_entry_order_flip(mode, b, x);
    lemma_entry_order_flip(mode, a, b);
    lemma_entry_order_trans(mode, a, x, b);
    lemma_entry_order_trans(mode, b, x, a);
}

proof fn lemma_insert_sorted_ties(mode: SortingMode, u: Seq<FileEntry>, l: FileEntry, x: FileEntry)
    ensures
        filter_entries(insert_sorted(mode, u, l), ties_with(mode, x)) == if ties_with(mode, x)(l) {
            filter_entries(u, ties_with(mode, x)).push(l)
        } else {
            filter_entries(u, ties_with(mode, x))
        },
    decreases u.len(),
{
    let p = ties_with(mode, x);
    if u.len() == 0 {
        let one = seq![l];
        assert(one.drop_last() =~= u);
        assert(one.last() == l);
    } else if entry_order(mode, l, u.last()) == Order::Less {
        let w = u.drop_last();
        let ul = u.last();
        lemma_insert_sorted_ties(mode, w, l, x);
        let q = insert_sorted(mode, w, l);
        assert(q.push(ul).drop_last() =~= q);
        assert(q.push(ul).last() == ul);
        if p(l) && p(ul) {
            lemma_ties_tie(mode, l, ul, x);
        }
    } else {
        assert(u.push(l).drop_last() =~= u);
        assert(u.push(l).last() == l);
    }
}

/// Sorting is stable: the entries that tie with any given entry come out in the order in
/// which they went in.
pub proof fn lemma_sort_stable(mode: SortingMode, s: Seq<FileEntry>, x: FileEntry)
    ensures
        filter_entries(sorted_entries(mode, s), ties_with(mode, x)) == filter_entries(
            s,
            ties_with(mode, x),
        ),
    decreases s.len(),
{
    if s.len() > 0 {
        lemma_sort_stable(mode, s.drop_last(), x);
        lemma_insert_sorted_ties(mode, sorted_entries(mode, s.drop_last()), s.last(), x);
    }
}

/// The file name of a path is what follows its last `/`: a name without `/`, alone or
/// after a directory part, is its own file name.
pub proof fn lemma_file_name_piece(dir: Seq<char>, name: Seq<char>)
    requires
        !name.contains('/'),
    ensures
        last_piece(name) == name,
        last_piece(dir + seq!['/'] + name) == name,
{
    lemma_split_without_sep(name, '/');
    lemma_split_push_sep(dir, '/');
    assert(dir + seq!['/'] =~= dir.push('/'));
    lemma_split_append(dir.push('/'), name, '/');
    let p = split(dir.push('/'), '/');
    assert(p.last() + name =~= name);
}

/// In flat mode two entries are ordered by their file names alone, lower-cased: the
/// directories that hold them play no part.
pub proof fn lemma_flat_order_by_name(
    a: FileEntry,
    b: FileEntry,
    dir_a: Seq<char>,
    dir_b: Seq<char>,
    name_a: Seq<char>,
    name_b: Seq<char>,
)
    requires
        !name_a.contains('/'),
        !name_b.contains('/'),
        a.relative@ == name_a || a.relative@ == dir_a + seq!['/'] + name_a,
        b.relative@ == name_b || b.relative@ == dir_b + seq!['/'] + name_b,
    ensures
        entry_order(SortingMode::Flat, a, b) == lex_order(lowercase(name_a), lowercase(name_b)),
{
    lemma_file_name_piece(dir_a, name_a);
    lemma_file_name_piece(dir_b, name_b);
}

} // verus!
