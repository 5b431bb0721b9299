use vstd::prelude::*;
use vstd::string::StringExecFns;

use crate::files::{str_eq, str_views, vec_starts_with};
use crate::fuzzypicker::{search_matches, FuzzySearch};
use crate::paths::{file_name, file_name_of};
use crate::text::{byte_len, chars_of, flip, is_byte_boundary, is_prefix, lemma_lex_order_flip, lemma_lex_order_trans, lex_compare, lex_order, Order};

verus! {

/// A key press as the interactive screens see it.
#[derive(Debug, Clone, Copy, PartialEq, Eq, Structural)]
pub enum Key {
    Char(char),
    Enter,
    Esc,
    Tab,
    Backspace,
    Delete,
    Up,
    Down,
    Left,
    Right,
    Other,
}

/// A keyboard event: the key, whether Control was held, and whether it is a press (as
/// opposed to a release or repeat).
#[derive(Debug, Clone, Copy, PartialEq, Eq, Structural)]
pub struct KeyPress {
    pub key: Key,
    pub ctrl: bool,
    pub press: bool,
}

/// The parent of a path (a name for what `Path::parent` returns).
pub uninterp spec fn parent_of(p: Seq<char>) -> Option<Seq<char>>;

/// `Path::parent`: the path without its last component, none for a root or an empty
/// path. Nothing more is stated of it; it is a function of the path alone.
#[verifier::external_body]
pub(crate) fn path_parent(p: &str) -> (r: Option<String>)
    ensures
        match r {
            Some(q) => parent_of(p@) == Some(q@),
            None => parent_of(p@) is None,
        },
{
    match std::path::Path::new(p).parent() {
        Some(q) => Some(q.to_string_lossy().to_string()),
        None => None,
    }
}

/// `char::is_control`: whether `c` is a control character (general category `Cc`:
/// U+0000 to U+001F and U+007F to U+009F).
pub open spec fn is_control_char(c: char) -> bool {
    (c as u32) <= 0x1f || (0x7f <= (c as u32) && (c as u32) <= 0x9f)
}

/// Whether `c` is a control character (see `is_control_char`).
pub fn is_control(c: char) -> (r: bool)
    ensures
        r == is_control_char(c),
{
    (c as u32) <= 0x1f || (0x7f <= (c as u32) && (c as u32) <= 0x9f)
}

/// An entry shown by the picker.
#[derive(Debug, Clone)]
pub struct FileEntry {
    pub path: String,
    pub name: String,
    pub is_dir: bool,
}

impl FileEntry {
    /// A field-by-field copy.
    pub fn copy(&self) -> (r: Self)
        ensures
            r == *self,
    {
        FileEntry { path: self.path.clone(), name: self.name.clone(), is_dir: self.is_dir }
    }
}

/// One entry of a directory listing: its path and name, whether it is a directory,
/// and whether it is a file that cannot be shown (binary or unreadable).
#[derive(Debug, Clone)]
pub struct ListedEntry {
    pub path: String,
    pub name: String,
    pub is_dir: bool,
    pub unreadable_file: bool,
}

/// What the picker's caller must do after a key.
#[derive(Debug)]
pub enum PickerStep {
    /// Nothing.
    Continue,
    /// List `current_dir` again and hand the listing to `load_listing`.
    Reload,
    /// Toggle the selection of this path: unselect it (and, for a directory, what lies
    /// under it) when `deselect`, select it otherwise.
    Toggle { path: String, deselect: bool },
    /// The user confirmed: hand `confirm_files` which selected paths are files.
    Confirm,
    /// The user cancelled.
    Cancelled,
}

/// The picker's final answer.
#[derive(Debug)]
pub enum PickerAction {
    Continue,
    Confirmed(Vec<String>),
    Cancelled,
}

/// Directories before files, then by name.
pub open spec fn picker_order(a: FileEntry, b: FileEntry) -> Order {
    if a.is_dir && !b.is_dir {
        Order::Less
    } else if !a.is_dir && b.is_dir {
        Order::Greater
    } else {
        lex_order(a.name@, b.name@)
    }
}

/// The stable insertion of `x` into `s` in picker order.
pub open spec fn picker_insert(s: Seq<FileEntry>, x: FileEntry) -> Seq<FileEntry>
    decreases s.len(),
{
    if s.len() == 0 {
        seq![x]
    } else if picker_order(x, s.last()) == Order::Less {
        picker_insert(s.drop_last(), x).push(s.last())
    } else {
        s.push(x)
    }
}

/// `s` stably sorted in picker order.
pub open spec fn picker_sorted(s: Seq<FileEntry>) -> Seq<FileEntry>
    decreases s.len(),
{
    if s.len() == 0 {
        Seq::empty()
    } else {
        picker_insert(picker_sorted(s.drop_last()), s.last())
    }
}

/// Swapping two picker entries flips their order.
pub proof fn lemma_picker_order_flip(a: FileEntry, b: FileEntry)
    ensures
        picker_order(b, a) == flip(picker_order(a, b)),
{
    lemma_lex_order_flip(a.name@, b.name@);
}

/// Picker order is transitive.
pub proof fn lemma_picker_order_trans(a: FileEntry, b: FileEntry, c: FileEntry)
    requires
        picker_order(a, b) != Order::Greater,
        picker_order(b, c) != Order::Greater,
    ensures
        picker_order(a, c) != Order::Greater,
{
    if a.is_dir == b.is_dir && b.is_dir == c.is_dir {
        lemma_lex_order_trans(a.name@, b.name@, c.name@);
    }
}

/// Every entry of `s` comes no later, in picker order, than every entry after it.
pub open spec fn picker_in_order(s: Seq<FileEntry>) -> bool {
    forall|i: int, j: int| 0 <= i < j < s.len() ==> picker_order(#[trigger] s[i], #[trigger] s[j]) != Order::Greater
}

proof fn lemma_picker_insert(s: Seq<FileEntry>, x: FileEntry)
    requires
        picker_in_order(s),
    ensures
        picker_in_order(picker_insert(s, x)),
        picker_insert(s, x).to_multiset() == s.to_multiset().insert(x),
        picker_insert(s, x).len() == s.len() + 1,
        forall|k: int|
            0 <= k < picker_insert(s, x).len() ==> #[trigger] picker_insert(s, x)[k] == x || s.contains(
                picker_insert(s, x)[k],
            ),
    decreases s.len(),
{
    broadcast use vstd::seq_lib::to_multiset_build;
    let r = picker_insert(s, x);
    if s.len() == 0 {
        assert(r =~= seq![x]);
        assert(seq![x] =~= Seq::<FileEntry>::empty().push(x));
        assert(s =~= Seq::<FileEntry>::empty());
    } else {
        let l = s.last();
        let t = s.drop_last();
        assert(s =~= t.push(l));
        lemma_picker_order_flip(x, l);
        if picker_order(x, l) == Order::Less {
            assert(picker_in_order(t)) by {
                assert forall|i: int, j: int| 0 <= i < j < t.len() implies picker_order(#[trigger] t[i], #[trigger] t[j]) != Order::Greater by {
                    assert(t[i] == s[i] && t[j] == s[j]);
                }
            }
            lemma_picker_insert(t, x);
            let q = picker_insert(t, x);
            assert(r == q.push(l));
            assert forall|i: int, j: int| 0 <= i < j < r.len() implies picker_order(#[trigger] r[i], #[trigger] r[j]) != Order::Greater by {
                if j < q.len() {
                    assert(r[i] == q[i] && r[j] == q[j]);
                } else {
                    assert(r[i] == q[i] && r[j] == l);
                    if q[i] != x {
                        let m = choose|m: int| 0 <= m < t.len() && t[m] == q[i];
                        assert(s[m] == t[m] && s[s.len() - 1] == l);
                    }
                }
            }
            assert forall|k: int| 0 <= k < r.len() implies #[trigger] r[k] == x || s.contains(r[k]) by {
                if k < q.len() {
                    assert(r[k] == q[k]);
                    if q[k] != x {
                        let m = choose|m: int| 0 <= m < t.len() && t[m] == q[k];
                        assert(s[m] == t[m]);
                    }
                } else {
                    assert(r[k] == l && s[s.len() - 1] == l);
                }
            }
            assert(q.push(l).to_multiset() == q.to_multiset().insert(l));
            assert(t.push(l).to_multiset() == t.to_multiset().insert(l));
            assert(r.to_multiset() =~= s.to_multiset().insert(x));
        } else {
            assert(r == s.push(x));
            assert forall|i: int, j: int| 0 <= i < j < r.len() implies picker_order(#[trigger] r[i], #[trigger] r[j]) != Order::Greater by {
                if j < s.len() {
                    assert(r[i] == s[i] && r[j] == s[j]);
                } else {
                    assert(r[i] == s[i] && r[j] == x);
                    if i < s.len() - 1 {
                        assert(picker_order(s[i], s[s.len() - 1]) != Order::Greater);
                        lemma_picker_order_trans(s[i], l, x);
                    }
                }
            }
            assert forall|k: int| 0 <= k < r.len() implies #[trigger] r[k] == x || s.contains(r[k]) by {
                if k < s.len() {
                    assert(r[k] == s[k]);
                }
            }
        }
    }
}

/// The picker's sort keeps every entry, as many times as it occurs, and puts them in
/// order: directories before files, then by name.
pub proof fn lemma_picker_sorted(s: Seq<FileEntry>)
    ensures
        picker_sorted(s).to_multiset() == s.to_multiset(),
        picker_in_order(picker_sorted(s)),
    decreases s.len(),
{
    broadcast use vstd::seq_lib::to_multiset_build;
    if s.len() == 0 {
        assert(picker_sorted(s) =~= s);
    } else {
        let t = s.drop_last();
        lemma_picker_sorted(t);
        lemma_picker_insert(picker_sorted(t), s.last());
        assert(s =~= t.push(s.last()));
        assert(t.push(s.last()).to_multiset() == t.to_multiset().insert(s.last()));
    }
}

/// Selecting paths and then unselecting the same paths leaves the earlier selection
/// without them; toggling a path on and off again (see `apply_toggle`) leaves a
/// selection that held none of the toggled paths as it was.
pub proof fn lemma_select_then_deselect(before: Set<Seq<char>>, toggled: Set<Seq<char>>)
    ensures
        before.union(toggled).difference(toggled) == before.difference(toggled),
        before.disjoint(toggled) ==> before.union(toggled).difference(toggled) == before,
{
    assert(before.union(toggled).difference(toggled) =~= before.difference(toggled));
    if before.disjoint(toggled) {
        assert(before.difference(toggled) =~= before);
    }
}

/// Whether a name is shown: hidden names (starting with `.`) only when hidden entries
/// are shown.
pub open spec fn shows_name_spec(name: Seq<char>, show_hidden: bool) -> bool {
    show_hidden || !is_prefix(seq!['.'], name)
}

/// Whether a name is shown (see `shows_name_spec`); directory traversals that select,
/// unselect or count entries skip the names it refuses.
pub fn shows_name(name: &str, show_hidden: bool) -> (r: bool)
    ensures
        r == shows_name_spec(name@, show_hidden),
{
    if show_hidden {
        return true;
    }
    let v = chars_of(name);
    let mut dot: Vec<char> = Vec::new();
    dot.push('.');
    assert(dot@ =~= seq!['.']);
    !vec_starts_with(&v, &dot)
}

/// Outside search mode, `k` presses of Down (or j) move the cursor from entry `i` to
/// entry `(i + k) % n` of the `n` entries and change nothing else that is listed; so `n`
/// presses come back to the entry they started on.
pub proof fn lemma_picker_downs(ps: Seq<FilePicker>, rs: Seq<PickerStep>, ks: Seq<KeyPress>, i: usize)
    requires
        ps.len() == ks.len() + 1,
        rs.len() == ks.len(),
        !ps[0].fuzzy_active,
        0 < ps[0].entries@.len() <= usize::MAX,
        ps[0].cursor == Some(i),
        i < ps[0].entries@.len(),
        forall|j: int|
            0 <= j < ks.len() ==> (#[trigger] ks[j]).press && (ks[j].key == Key::Down || ks[j].key
                == Key::Char('j')) && picker_step(ps[j], ps[j + 1], ks[j], rs[j]),
    ensures
        ps.last().cursor == Some(((i + ks.len()) % (ps[0].entries@.len() as int)) as usize),
        same_listing(ps[0], ps.last()),
        !ps.last().fuzzy_active,
        ks.len() == ps[0].entries@.len() ==> ps.last().cursor == Some(i),
    decreases ks.len(),
{
    let n = ps[0].entries@.len() as int;
    let ii = i as int;
    if ks.len() == 0 {
        assert(ii % n == ii) by (nonlinear_arith)
            requires
                0 <= ii < n,
        ;
    } else {
        let k = ks.len() - 1;
        let ps2 = ps.drop_last();
        let rs2 = rs.drop_last();
        let ks2 = ks.drop_last();
        assert forall|j: int| 0 <= j < ks2.len() implies (#[trigger] ks2[j]).press && (ks2[j].key
            == Key::Down || ks2[j].key == Key::Char('j')) && picker_step(ps2[j], ps2[j + 1], ks2[j], rs2[j]) by {
            assert(ks2[j] == ks[j] && ps2[j] == ps[j] && ps2[j + 1] == ps[j + 1] && rs2[j] == rs[j]);
        }
        lemma_picker_downs(ps2, rs2, ks2, i);
        let o = ps[k];
        assert(o == ps2.last());
        assert(ks[k].press && (ks[k].key == Key::Down || ks[k].key == Key::Char('j')));
        assert(picker_step(ps[k], ps[k + 1], ks[k], rs[k]));
        let c = (i + k) % n;
        assert(0 <= c < n) by (nonlinear_arith)
            requires
                n > 0,
                c == (i + k) % n,
        ;
        assert((c + 1) % n == (i + k + 1) % n) by (nonlinear_arith)
            requires
                n > 0,
                c == (i + k) % n,
                i + k >= 0,
        {
            vstd::arithmetic::div_mod::lemma_add_mod_noop_right(1, i + k, n);
        }
        if ks.len() == n {
            assert((ii + n) % n == ii) by (nonlinear_arith)
                requires
                    0 <= ii < n,
            {
                vstd::arithmetic::div_mod::lemma_mod_add_multiples_vanish(ii, n);
                vstd::arithmetic::div_mod::lemma_small_mod(ii as nat, n as nat);
            }
        }
    }
}

/// Whether the picker shows a listed entry: its name is shown (see `shows_name_spec`)
/// and it is not an unreadable or binary file.
pub open spec fn shows(e: ListedEntry, show_hidden: bool) -> bool {
    shows_name_spec(e.name@, show_hidden) && !e.unreadable_file
}

/// The entries the picker shows for a listing, in listing order.
pub open spec fn shown_entries(listing: Seq<ListedEntry>, show_hidden: bool) -> Seq<FileEntry>
    decreases listing.len(),
{
    if listing.len() == 0 {
        Seq::empty()
    } else if shows(listing.last(), show_hidden) {
        shown_entries(listing.drop_last(), show_hidden).push(
            FileEntry {
                path: listing.last().path,
                name: listing.last().name,
                is_dir: listing.last().is_dir,
            },
        )
    } else {
        shown_entries(listing.drop_last(), show_hidden)
    }
}

/// The names of picker entries.
pub open spec fn entry_names(s: Seq<FileEntry>) -> Seq<Seq<char>> {
    s.map_values(|e: FileEntry| e.name@)
}

/// The views of a list of paths, as a set.
pub open spec fn path_set(v: Seq<String>) -> Set<Seq<char>> {
    Set::new(|p: Seq<char>| exists|i: int| 0 <= i < v.len() && v[i]@ == p)
}

/// An interactive file selector.
#[derive(Debug)]
pub struct FilePicker {
    pub root: String,
    pub current_dir: String,
    pub entries: Vec<FileEntry>,
    pub selected: Vec<String>,
    pub cursor: Option<usize>,
    pub confirmed: bool,
    pub cancelled: bool,
    pub show_hidden: bool,
    pub fuzzy_active: bool,
    pub search: FuzzySearch,
}

impl FilePicker {
    /// The indices into `entries` of the entries shown: the search matches that are in
    /// range while searching, all entries otherwise.
    pub open spec fn visible(&self) -> Seq<usize> {
        if self.fuzzy_active {
            self.search.matches@.filter(|i: usize| i < self.entries@.len())
        } else {
            Seq::new(self.entries@.len(), |i: int| i as usize)
        }
    }

    /// A picker at `root`, with nothing listed yet.
    pub fn new(root: String, show_hidden: bool) -> (r: Self)
        ensures
            r.root@ == root@,
            r.current_dir@ == root@,
            r.entries@.len() == 0,
            r.selected@.len() == 0,
            r.cursor is None,
            !r.confirmed,
            !r.cancelled,
            r.show_hidden == show_hidden,
            !r.fuzzy_active,
            r.search.pattern@.len() == 0,
            r.search.cursor == 0,
            r.search.matches@.len() == 0,
    {
        let current = root.clone();
        FilePicker {
            root,
            current_dir: current,
            entries: Vec::new(),
            selected: Vec::new(),
            cursor: None,
            confirmed: false,
            cancelled: false,
            show_hidden,
            fuzzy_active: false,
            search: FuzzySearch::new(),
        }
    }

    /// The indices into `entries` of the entries shown (see `visible`).
    pub fn visible_entries(&self) -> (r: Vec<usize>)
        ensures
            r@ == self.visible(),
    {
        let mut out: Vec<usize> = Vec::new();
        if self.fuzzy_active {
            let ghost m = self.search.matches@;
            let ghost pred = |i: usize| i < self.entries@.len();
            let mut k: usize = 0;
            assert(m.take(0).filter(pred) =~= Seq::<usize>::empty());
            while k < self.search.matches.len()
                invariant
                    k <= m.len(),
                    m == self.search.matches@,
                    pred == (|i: usize| i < self.entries@.len()),
                    out@ == m.take(k as int).filter(pred),
                decreases m.len() - k,
            {
                let i = self.search.matches[k];
                proof {
                    assert(m.take(k + 1) =~= m.take(k as int).push(i));
                    m.take(k as int).lemma_filter_push(i, pred);
                }
                if i < self.entries.len() {
                    out.push(i);
                }
                k = k + 1;
            }
            assert(m.take(m.len() as int) =~= m);
        } else {
            let mut i: usize = 0;
            while i < self.entries.len()
                invariant
                    i <= self.entries@.len(),
                    out@ == Seq::new(i as nat, |j: int| j as usize),
                decreases self.entries@.len() - i,
            {
                out.push(i);
                assert(out@ =~= Seq::new((i + 1) as nat, |j: int| j as usize));
                i = i + 1;
            }
        }
        out
    }

    /// Recomputes the search matches over the entries' names.
    pub fn refresh_matches(&mut self)
        ensures
            final(self).search.matches@ == search_matches(old(self).search.pattern@, entry_names(old(self).entries@)),
            final(self).search.pattern == old(self).search.pattern,
            final(self).search.cursor == old(self).search.cursor,
            final(self).entries == old(self).entries,
            final(self).root == old(self).root,
            final(self).current_dir == old(self).current_dir,
            final(self).selected == old(self).selected,
            final(self).cursor == old(self).cursor,
            final(self).confirmed == old(self).confirmed,
            final(self).cancelled == old(self).cancelled,
            final(self).show_hidden == old(self).show_hidden,
            final(self).fuzzy_active == old(self).fuzzy_active,
    {
        let mut names: Vec<String> = Vec::new();
        let mut i: usize = 0;
        while i < self.entries.len()
            invariant
                i <= self.entries@.len(),
                str_views(names@) == entry_names(self.entries@).take(i as int),
            decreases self.entries@.len() - i,
        {
            let ghost prev = names@;
            names.push(self.entries[i].name.clone());
            assert(str_views(names@) =~= str_views(prev).push(self.entries@[i as int].name@));
            assert(entry_names(self.entries@).take(i + 1) =~= entry_names(self.entries@).take(
                i as int,
            ).push(self.entries@[i as int].name@));
            i = i + 1;
        }
        assert(entry_names(self.entries@).take(self.entries@.len() as int) =~= entry_names(
            self.entries@,
        ));
        self.search.update_matches(&names);
    }

    /// Forgets the listed entries (what is left when a directory cannot be read).
    pub fn clear_entries(&mut self)
        ensures
            final(self).entries@.len() == 0,
            final(self).search == old(self).search,
            final(self).cursor == old(self).cursor,
            final(self).current_dir == old(self).current_dir,
            final(self).selected == old(self).selected,
            final(self).show_hidden == old(self).show_hidden,
            final(self).fuzzy_active == old(self).fuzzy_active,
            final(self).root == old(self).root,
            final(self).confirmed == old(self).confirmed,
            final(self).cancelled == old(self).cancelled,
    {
        self.entries = Vec::new();
    }

    /// Shows a listing of `current_dir`: keeps the entries that `shows` admits, sorts
    /// them (directories first, then by name), recomputes the search matches, and puts
    /// the cursor on the first shown entry when there is one.
    pub fn load_listing(&mut self, listing: &Vec<ListedEntry>)
        ensures
            final(self).entries@ == picker_sorted(shown_entries(listing@, old(self).show_hidden)),
            final(self).search.matches@ == search_matches(
                old(self).search.pattern@,
                entry_names(final(self).entries@),
            ),
            final(self).search.pattern == old(self).search.pattern,
            final(self).search.cursor == old(self).search.cursor,
            final(self).visible().len() > 0 ==> final(self).cursor == Some(0usize),
            final(self).visible().len() == 0 ==> final(self).cursor == old(self).cursor,
            final(self).root == old(self).root,
            final(self).current_dir == old(self).current_dir,
            final(self).selected == old(self).selected,
            final(self).confirmed == old(self).confirmed,
            final(self).cancelled == old(self).cancelled,
            final(self).show_hidden == old(self).show_hidden,
            final(self).fuzzy_active == old(self).fuzzy_active,
    {
        let mut shown: Vec<FileEntry> = Vec::new();
        let mut i: usize = 0;
        let mut dot: Vec<char> = Vec::new();
        dot.push('.');
        assert(dot@ =~= seq!['.']);
        assert(listing@.take(0) =~= Seq::<ListedEntry>::empty());
        while i < listing.len()
            invariant
                i <= listing@.len(),
                dot@ == seq!['.'],
                shown@ == shown_entries(listing@.take(i as int), self.show_hidden),
            decreases listing@.len() - i,
        {
            let e = &listing[i];
            assert(listing@.take(i + 1).drop_last() =~= listing@.take(i as int));
            assert(listing@.take(i + 1).last() == *e);
            let hidden = vec_starts_with(&chars_of(e.name.as_str()), &dot);
            if (self.show_hidden || !hidden) && !e.unreadable_file {
                shown.push(FileEntry { path: e.path.clone(), name: e.name.clone(), is_dir: e.is_dir });
            }
            i = i + 1;
        }
        assert(listing@.take(listing@.len() as int) =~= listing@);
        let sorted = sort_picker_entries(&shown);
        self.entries = sorted;
        self.refresh_matches();
        let vis = self.visible_entries();
        if vis.len() > 0 {
            self.cursor = Some(0);
        }
    }

    /// Selects every path in `paths`.
    pub fn select_paths(&mut self, paths: &Vec<String>)
        ensures
            path_set(final(self).selected@) == path_set(old(self).selected@).union(path_set(paths@)),
            final(self).entries == old(self).entries,
            final(self).search == old(self).search,
            final(self).cursor == old(self).cursor,
            final(self).current_dir == old(self).current_dir,
            final(self).show_hidden == old(self).show_hidden,
            final(self).fuzzy_active == old(self).fuzzy_active,
            final(self).root == old(self).root,
            final(self).confirmed == old(self).confirmed,
            final(self).cancelled == old(self).cancelled,
    {
        let mut i: usize = 0;
        while i < paths.len()
            invariant
                i <= paths@.len(),
                path_set(self.selected@) == path_set(old(self).selected@).union(path_set(paths@.take(i as int))),
                self.entries == old(self).entries,
                self.search == old(self).search,
                self.cursor == old(self).cursor,
                self.current_dir == old(self).current_dir,
                self.show_hidden == old(self).show_hidden,
                self.fuzzy_active == old(self).fuzzy_active,
                self.root == old(self).root,
                self.confirmed == old(self).confirmed,
                self.cancelled == old(self).cancelled,
            decreases paths@.len() - i,
        {
            let ghost prev = self.selected@;
            let p = paths[i].clone();
            if !self.is_selected(p.as_str()) {
                self.selected.push(p);
            } else {
                assert(path_set(prev).contains(paths@[i as int]@));
            }
            proof {
                assert(path_set(self.selected@) =~= path_set(prev).insert(paths@[i as int]@)) by {
                    assert forall|q: Seq<char>| path_set(prev).insert(paths@[i as int]@).contains(q) implies path_set(self.selected@).contains(q) by {
                        if q == paths@[i as int]@ {
                            if self.selected@.len() > prev.len() {
                                assert(self.selected@[prev.len() as int]@ == q);
                            }
                        } else {
                            let j = choose|j: int| 0 <= j < prev.len() && prev[j]@ == q;
                            assert(self.selected@[j] == prev[j]);
                        }
                    }
                    assert forall|q: Seq<char>| path_set(self.selected@).contains(q) implies path_set(prev).insert(paths@[i as int]@).contains(q) by {
                        let j = choose|j: int| 0 <= j < self.selected@.len() && self.selected@[j]@ == q;
                        if j < prev.len() {
                            assert(self.selected@[j] == prev[j]);
                        }
                    }
                }
                assert(path_set(paths@.take(i + 1)) =~= path_set(paths@.take(i as int)).insert(paths@[i as int]@)) by {
                    assert forall|q: Seq<char>| path_set(paths@.take(i + 1)).contains(q) implies path_set(paths@.take(i as int)).insert(paths@[i as int]@).contains(q) by {
                        let j = choose|j: int| 0 <= j < i + 1 && #[trigger] paths@.take(i + 1)[j]@ == q;
                        if j < i {
                            assert(paths@.take(i as int)[j] == paths@[j]);
                        }
                    }
                    assert forall|q: Seq<char>| path_set(paths@.take(i as int)).insert(paths@[i as int]@).contains(q) implies path_set(paths@.take(i + 1)).contains(q) by {
                        if q == paths@[i as int]@ {
                            assert(paths@.take(i + 1)[i as int] == paths@[i as int]);
                        } else {
                            let j = choose|j: int| 0 <= j < i && #[trigger] paths@.take(i as int)[j]@ == q;
                            assert(paths@.take(i + 1)[j] == paths@[j]);
                        }
                    }
                }
                assert(path_set(self.selected@) =~= path_set(old(self).selected@).union(path_set(paths@.take(i + 1))));
            }
            i = i + 1;
        }
        assert(paths@.take(paths@.len() as int) =~= paths@);
    }

    /// Unselects every path in `paths`.
    pub fn deselect_paths(&mut self, paths: &Vec<String>)
        ensures
            path_set(final(self).selected@) == path_set(old(self).selected@).difference(path_set(paths@)),
            final(self).entries == old(self).entries,
            final(self).search == old(self).search,
            final(self).cursor == old(self).cursor,
            final(self).current_dir == old(self).current_dir,
            final(self).show_hidden == old(self).show_hidden,
            final(self).fuzzy_active == old(self).fuzzy_active,
            final(self).root == old(self).root,
            final(self).confirmed == old(self).confirmed,
            final(self).cancelled == old(self).cancelled,
    {
        let ghost drop = path_set(paths@);
        let mut kept: Vec<String> = Vec::new();
        let mut i: usize = 0;
        while i < self.selected.len()
            invariant
                i <= self.selected@.len(),
                drop == path_set(paths@),
                forall|j: int| 0 <= j < kept@.len() ==> !drop.contains(#[trigger] kept@[j]@) && exists|m: int| 0 <= m < i && self.selected@[m]@ == kept@[j]@,
                forall|m: int| 0 <= m < i && !drop.contains(#[trigger] self.selected@[m]@) ==> exists|j: int| 0 <= j < kept@.len() && kept@[j]@ == self.selected@[m]@,
            decreases self.selected@.len() - i,
        {
            let s = &self.selected[i];
            let mut hit = false;
            let mut k: usize = 0;
            while k < paths.len() && !hit
                invariant
                    k <= paths@.len(),
                    drop == path_set(paths@),
                    hit ==> drop.contains(s@),
                    !hit ==> forall|m: int| 0 <= m < k ==> paths@[m]@ != s@,
                decreases paths@.len() - k,
            {
                if str_eq(paths[k].as_str(), s.as_str()) {
                    hit = true;
                }
                k = k + 1;
            }
            let ghost before = kept@;
            if !hit {
                kept.push(s.clone());
                assert(kept@[before.len() as int]@ == self.selected@[i as int]@);
            }
            proof {
                assert forall|j: int| 0 <= j < kept@.len() implies !drop.contains(#[trigger] kept@[j]@) && exists|m: int| 0 <= m < i + 1 && self.selected@[m]@ == kept@[j]@ by {
                    if j < before.len() {
                        assert(kept@[j] == before[j]);
                    }
                }
                assert forall|m: int| 0 <= m < i + 1 && !drop.contains(#[trigger] self.selected@[m]@) implies exists|j: int| 0 <= j < kept@.len() && kept@[j]@ == self.selected@[m]@ by {
                    if m < i {
                        let j = choose|j: int| 0 <= j < before.len() && before[j]@ == self.selected@[m]@;
                        assert(kept@[j] == before[j]);
                    } else {
                        assert(kept@[before.len() as int]@ == self.selected@[m]@);
                    }
                }
            }
            i = i + 1;
        }
        let ghost old_sel = self.selected@;
        self.selected = kept;
        assert(path_set(self.selected@) =~= path_set(old_sel).difference(drop));
    }

    /// Whether `p` is selected.
    pub fn is_selected(&self, p: &str) -> (r: bool)
        ensures
            r == path_set(self.selected@).contains(p@),
    {
        let mut i: usize = 0;
        while i < self.selected.len()
            invariant
                i <= self.selected@.len(),
                forall|j: int| 0 <= j < i ==> self.selected@[j]@ != p@,
            decreases self.selected@.len() - i,
        {
            if str_eq(self.selected[i].as_str(), p) {
                return true;
            }
            i = i + 1;
        }
        false
    }
}

/// Stably sorts picker entries (directories first, then by name).
pub fn sort_picker_entries(v: &Vec<FileEntry>) -> (r: Vec<FileEntry>)
    ensures
        r@ == picker_sorted(v@),
{
    let mut out: Vec<FileEntry> = Vec::new();
    let mut i: usize = 0;
    assert(v@.take(0) =~= Seq::<FileEntry>::empty());
    while i < v.len()
        invariant
            i <= v@.len(),
            out@ == picker_sorted(v@.take(i as int)),
        decreases v@.len() - i,
    {
        let x = v[i].copy();
        let ghost s = out@;
        let mut j = out.len();
        assert(s.take(j as int) =~= s);
        assert(s.skip(j as int) =~= Seq::<FileEntry>::empty());
        while j > 0 && picker_compare(&x, &out[j - 1]).is_less()
            invariant
                j <= out@.len(),
                out@ == s,
                picker_insert(s, x) == picker_insert(s.take(j as int), x) + s.skip(j as int),
            decreases j,
        {
            proof {
                let t = s.take(j as int);
                assert(t.last() == s[j - 1]);
                assert(t.drop_last() =~= s.take(j - 1));
                assert(picker_insert(s.take(j - 1), x).push(s[j - 1]) + s.skip(j as int)
                    =~= picker_insert(s.take(j - 1), x) + s.skip(j - 1));
            }
            j = j - 1;
        }
        proof {
            let t = s.take(j as int);
            if j > 0 {
                assert(t.last() == s[j - 1]);
            }
            assert(picker_insert(t, x) == t.push(x));
            assert(t.push(x) + s.skip(j as int) =~= s.insert(j as int, x));
        }
        out.insert(j, x);
        proof {
            assert(v@.take(i + 1).drop_last() =~= v@.take(i as int));
            assert(v@.take(i + 1).last() == v@[i as int]);
        }
        i = i + 1;
    }
    assert(v@.take(v@.len() as int) =~= v@);
    out
}

fn picker_compare(a: &FileEntry, b: &FileEntry) -> (r: Order)
    ensures
        r == picker_order(*a, *b),
{
    if a.is_dir && !b.is_dir {
        Order::Less
    } else if !a.is_dir && b.is_dir {
        Order::Greater
    } else {
        lex_compare(&chars_of(a.name.as_str()), &chars_of(b.name.as_str()))
    }
}

} // verus!

verus! {

/// Whether two pickers agree on everything but the search, the cursor and the search
/// mode.
pub open spec fn same_listing(a: FilePicker, b: FilePicker) -> bool {
    &&& a.root == b.root
    &&& a.current_dir == b.current_dir
    &&& a.entries == b.entries
    &&& a.selected == b.selected
    &&& a.confirmed == b.confirmed
    &&& a.cancelled == b.cancelled
    &&& a.show_hidden == b.show_hidden
}

/// Whether the name of path `p` marks it as hidden.
pub open spec fn hidden_path(p: Seq<char>) -> bool {
    match file_name(p) {
        Some(n) => is_prefix(seq!['.'], n),
        None => false,
    }
}

/// What a key press does in search mode: `o` before, `f` after, `r` the answer.
pub open spec fn search_key_step(o: FilePicker, f: FilePicker, k: KeyPress, r: PickerStep) -> bool {
    let n = o.visible().len();
    let i = match o.cursor { Some(i) => i as int, None => 0 };
    match k.key {
        Key::Esc | Key::Tab => same_listing(o, f) && !f.fuzzy_active && f.cursor
            == Some(0usize) && f.search == o.search && r is Continue,
        Key::Backspace => same_listing(o, f) && f.fuzzy_active && f.cursor == Some(
            0usize,
        ) && (o.search.cursor == 0 ==> f.search.pattern == o.search.pattern
            && f.search.cursor == 0) && (o.search.cursor > 0 ==> f.search.cursor
            == o.search.cursor - 1 && exists|j: int|
            0 <= j < o.search.pattern@.len() && byte_offset_eq(
                o.search.pattern@,
                j,
                o.search.cursor - 1,
            ) && f.search.pattern@ == o.search.pattern@.remove(j))
            && f.search.matches@ == search_matches(
            f.search.pattern@,
            entry_names(o.entries@),
        ) && r is Continue,
        Key::Delete => same_listing(o, f) && f.fuzzy_active && f.cursor == Some(
            0usize,
        ) && f.search.cursor == o.search.cursor && (o.search.cursor >= byte_len(
            o.search.pattern@,
        ) ==> f.search.pattern == o.search.pattern) && (o.search.cursor < byte_len(
            o.search.pattern@,
        ) ==> exists|j: int|
            0 <= j < o.search.pattern@.len() && byte_offset_eq(
                o.search.pattern@,
                j,
                o.search.cursor as int,
            ) && f.search.pattern@ == o.search.pattern@.remove(j))
            && f.search.matches@ == search_matches(
            f.search.pattern@,
            entry_names(o.entries@),
        ) && r is Continue,
        Key::Up => same_listing(o, f) && f.fuzzy_active && f.search == o.search
            && f.cursor == (if n > 0 && i > 0 {
            Some((i - 1) as usize)
        } else {
            o.cursor
        }) && r is Continue,
        Key::Down => same_listing(o, f) && f.fuzzy_active && f.search == o.search
            && f.cursor == (if n > 0 && i + 1 < n {
            Some((i + 1) as usize)
        } else {
            o.cursor
        }) && r is Continue,
        Key::Left => if !k.ctrl {
            same_listing(o, f) && f.fuzzy_active && f.cursor == o.cursor
                && f.search.pattern == o.search.pattern && f.search.matches
                == o.search.matches && f.search.cursor == (if o.search.cursor > 0 {
                (o.search.cursor - 1) as usize
            } else {
                0
            }) && r is Continue
        } else {
            match parent_of(o.current_dir@) {
                Some(p) => !f.fuzzy_active && f.current_dir@ == p && f.root == o.root
                    && f.entries == o.entries && f.selected == o.selected
                    && f.show_hidden == o.show_hidden && f.search == o.search
                    && f.cursor == o.cursor && f.confirmed == o.confirmed
                    && f.cancelled == o.cancelled && r is Reload,
                None => f == o && r is Continue,
            }
        },
        Key::Right => if !k.ctrl {
            same_listing(o, f) && f.fuzzy_active && f.cursor == o.cursor
                && f.search.pattern == o.search.pattern && f.search.matches
                == o.search.matches && f.search.cursor == (if o.search.cursor
                < byte_len(o.search.pattern@) {
                (o.search.cursor + 1) as usize
            } else {
                o.search.cursor
            }) && r is Continue
        } else if o.cursor is Some && 0 <= i < n && o.entries@[
            o.visible()[i] as int
        ].is_dir {
            !f.fuzzy_active && f.current_dir == o.entries@[
                o.visible()[i] as int
            ].path && f.root == o.root && f.entries == o.entries && f.selected
                == o.selected && f.show_hidden == o.show_hidden && f.search
                == o.search && f.cursor == o.cursor && f.confirmed == o.confirmed
                && f.cancelled == o.cancelled && r is Reload
        } else {
            f == o && r is Continue
        },
        Key::Enter => f.confirmed && f.root == o.root && f.current_dir
            == o.current_dir && f.entries == o.entries && f.selected == o.selected
            && f.cancelled == o.cancelled && f.show_hidden == o.show_hidden
            && f.fuzzy_active == o.fuzzy_active && f.search == o.search && f.cursor
            == o.cursor && r is Confirm,
        Key::Char(c) => if c == '.' && k.ctrl {
            f.show_hidden == !o.show_hidden && f.root == o.root && f.current_dir
                == o.current_dir && f.entries == o.entries && f.selected
                == o.selected && f.confirmed == o.confirmed && f.cancelled
                == o.cancelled && f.fuzzy_active && f.search == o.search && f.cursor
                == o.cursor && r is Reload
        } else if c == ' ' {
            f == o && (if o.cursor is Some && 0 <= i < n {
                r matches PickerStep::Toggle { path, deselect } && path@ == o.entries@[
                    o.visible()[i] as int
                ].path@ && deselect == path_set(o.selected@).contains(path@)
            } else {
                r is Continue
            })
        } else if !is_control_char(c) {
            same_listing(o, f) && f.fuzzy_active && f.cursor == Some(0usize)
                && f.search.cursor == o.search.cursor + 1 && (o.search.cursor
                == byte_len(o.search.pattern@) ==> f.search.pattern@
                == o.search.pattern@.push(c)) && (o.search.cursor != byte_len(
                o.search.pattern@,
            ) ==> exists|j: int|
                0 <= j <= o.search.pattern@.len() && byte_offset_eq(
                    o.search.pattern@,
                    j,
                    o.search.cursor as int,
                ) && f.search.pattern@ == o.search.pattern@.insert(j, c))
                && f.search.matches@ == search_matches(
                f.search.pattern@,
                entry_names(o.entries@),
            ) && r is Continue
        } else {
            f == o && r is Continue
        },
        _ => f == o && r is Continue,
    }
}

impl FilePicker {
    /// Whether the search operation a key triggers can be done on the current pattern:
    /// typing, backspace and delete in search mode need the search cursor on a
    /// character boundary (typing also below `usize::MAX`).
    pub open spec fn event_safe(&self, k: KeyPress) -> bool {
        let p = self.search.pattern@;
        let c = self.search.cursor;
        !(k.press && self.fuzzy_active) || match k.key {
            Key::Backspace => c > 0 ==> is_byte_boundary(p, c - 1) && c - 1 < byte_len(p),
            Key::Delete => c < byte_len(p) ==> is_byte_boundary(p, c as int),
            Key::Char(ch) => (ch == '.' && k.ctrl) || ch == ' ' || is_control_char(ch) || (
            is_byte_boundary(p, c as int) && c < usize::MAX),
            _ => true,
        }
    }

    /// Whether the search operation a key triggers can be done (see `event_safe`).
    pub fn event_is_safe(&self, k: &KeyPress) -> (r: bool)
        ensures
            r == self.event_safe(*k),
    {
        if !(k.press && self.fuzzy_active) {
            return true;
        }
        let p = self.search.pattern.as_str();
        let c = self.search.cursor;
        match k.key {
            Key::Backspace => c == 0 || (p.is_char_boundary(c - 1) && c - 1 < p.len()),
            Key::Delete => !(c < p.len()) || p.is_char_boundary(c),
            Key::Char(ch) => (ch == '.' && k.ctrl) || ch == ' ' || is_control(ch) || (
            p.is_char_boundary(c) && c < usize::MAX),
            _ => true,
        }
    }

    /// Handles a key in search mode (see `handle_event`).
    fn handle_search_key(&mut self, k: &KeyPress) -> (r: PickerStep)
        requires
            old(self).fuzzy_active,
            k.press,
            old(self).event_safe(*k),
        ensures
            search_key_step(*old(self), *final(self), *k, r),
    {
        let vis = self.visible_entries();
        let len = vis.len();
        match k.key {
            Key::Esc | Key::Tab => {
                self.fuzzy_active = false;
                self.cursor = Some(0);
                PickerStep::Continue
            },
            Key::Backspace => {
                self.search.backspace();
                self.refresh_matches();
                self.cursor = Some(0);
                PickerStep::Continue
            },
            Key::Delete => {
                self.search.delete();
                self.refresh_matches();
                self.cursor = Some(0);
                PickerStep::Continue
            },
            Key::Up => {
                if len > 0 {
                    let i = match self.cursor {
                        Some(i) => i,
                        None => 0,
                    };
                    if i > 0 {
                        self.cursor = Some(i - 1);
                    }
                }
                PickerStep::Continue
            },
            Key::Down => {
                if len > 0 {
                    let i = match self.cursor {
                        Some(i) => i,
                        None => 0,
                    };
                    if i < len - 1 {
                        self.cursor = Some(i + 1);
                    }
                }
                PickerStep::Continue
            },
            Key::Left => {
                if !k.ctrl {
                    self.search.move_cursor_left();
                    PickerStep::Continue
                } else {
                    match path_parent(self.current_dir.as_str()) {
                        Some(p) => {
                            self.fuzzy_active = false;
                            self.current_dir = p;
                            PickerStep::Reload
                        },
                        None => PickerStep::Continue,
                    }
                }
            },
            Key::Right => {
                if !k.ctrl {
                    self.search.move_cursor_right();
                    PickerStep::Continue
                } else {
                    match self.cursor {
                        Some(i) => {
                            if i < len && self.entries[vis[i]].is_dir {
                                let next = self.entries[vis[i]].path.clone();
                                self.fuzzy_active = false;
                                self.current_dir = next;
                                PickerStep::Reload
                            } else {
                                PickerStep::Continue
                            }
                        },
                        None => PickerStep::Continue,
                    }
                }
            },
            Key::Enter => {
                self.confirmed = true;
                PickerStep::Confirm
            },
            Key::Char(c) => {
                if c == '.' && k.ctrl {
                    self.show_hidden = !self.show_hidden;
                    PickerStep::Reload
                } else if c == ' ' {
                    match self.cursor {
                        Some(i) => {
                            if i < len {
                                let path = self.entries[vis[i]].path.clone();
                                let deselect = self.is_selected(path.as_str());
                                PickerStep::Toggle { path, deselect }
                            } else {
                                PickerStep::Continue
                            }
                        },
                        None => PickerStep::Continue,
                    }
                } else if !is_control(c) {
                    self.search.handle_input(c);
                    self.refresh_matches();
                    self.cursor = Some(0);
                    PickerStep::Continue
                } else {
                    PickerStep::Continue
                }
            },
            _ => PickerStep::Continue,
        }
    }
}

/// What a key event does to the picker: nothing unless it is a press; then as in
/// search mode or outside it.
pub open spec fn picker_step(o: FilePicker, f: FilePicker, k: KeyPress, r: PickerStep) -> bool {
    if !k.press {
        f == o && r is Continue
    } else if o.fuzzy_active {
        search_key_step(o, f, k, r)
    } else {
        browse_key_step(o, f, k, r)
    }
}

/// Whether character `k` of `s` starts at byte `idx`.
pub open spec fn byte_offset_eq(s: Seq<char>, k: int, idx: int) -> bool {
    crate::text::byte_offset(s, k) == idx
}

} // verus!

verus! {

/// What a key press does outside search mode: `o` before, `f` after, `r` the answer.
pub open spec fn browse_key_step(o: FilePicker, f: FilePicker, k: KeyPress, r: PickerStep) -> bool {
    let n = o.entries@.len();
    let i = match o.cursor { Some(i) => i as int, None => 0 };
    if k.key == Key::Char('f') || k.key == Key::Tab {
        same_listing(o, f) && f.fuzzy_active && f.search.pattern@.len() == 0
            && f.search.cursor == 0 && f.search.matches@ == search_matches(
            Seq::empty(),
            entry_names(o.entries@),
        ) && f.cursor == o.cursor && r is Continue
    } else if k.key == Key::Down || k.key == Key::Char('j') {
        same_listing(o, f) && f.search == o.search && !f.fuzzy_active && f.cursor
            == (if n > 0 {
            Some(((i + 1) % (n as int)) as usize)
        } else {
            o.cursor
        }) && r is Continue
    } else if k.key == Key::Up || k.key == Key::Char('k') {
        same_listing(o, f) && f.search == o.search && !f.fuzzy_active && f.cursor
            == (if n > 0 {
            Some((if i == 0 {
                n - 1
            } else {
                i - 1
            }) as usize)
        } else {
            o.cursor
        }) && r is Continue
    } else if k.key == Key::Right || k.key == Key::Char('l') {
        if o.cursor is Some && i < n && o.entries@[i].is_dir {
            f.current_dir == o.entries@[i].path && f.root == o.root && f.entries
                == o.entries && f.selected == o.selected && f.show_hidden
                == o.show_hidden && f.search == o.search && f.cursor == o.cursor
                && f.confirmed == o.confirmed && f.cancelled == o.cancelled
                && !f.fuzzy_active && r is Reload
        } else {
            f == o && r is Continue
        }
    } else if k.key == Key::Left || k.key == Key::Char('h') {
        match parent_of(o.current_dir@) {
            Some(p) => f.current_dir@ == p && f.root == o.root && f.entries
                == o.entries && f.selected == o.selected && f.show_hidden
                == o.show_hidden && f.search == o.search && f.cursor == o.cursor
                && f.confirmed == o.confirmed && f.cancelled == o.cancelled
                && !f.fuzzy_active && r is Reload,
            None => f == o && r is Continue,
        }
    } else if k.key == Key::Char(' ') {
        f == o && (if o.cursor is Some && i < n {
            r matches PickerStep::Toggle { path, deselect } && path@ == o.entries@[
                i
            ].path@ && deselect == path_set(o.selected@).contains(path@)
        } else {
            r is Continue
        })
    } else if k.key == Key::Char('.') {
        f.show_hidden == !o.show_hidden && f.root == o.root && f.current_dir
            == o.current_dir && f.entries == o.entries && f.selected == o.selected
            && f.confirmed == o.confirmed && f.cancelled == o.cancelled
            && !f.fuzzy_active && f.search == o.search && f.cursor == o.cursor
            && r is Reload
    } else if k.key == Key::Enter {
        f.confirmed && f.root == o.root && f.current_dir == o.current_dir
            && f.entries == o.entries && f.selected == o.selected && f.cancelled
            == o.cancelled && f.show_hidden == o.show_hidden && !f.fuzzy_active
            && f.search == o.search && f.cursor == o.cursor && r is Confirm
    } else if k.key == Key::Esc || (k.key == Key::Char('c') && k.ctrl) {
        f.cancelled && f.root == o.root && f.current_dir == o.current_dir
            && f.entries == o.entries && f.selected == o.selected && f.confirmed
            == o.confirmed && f.show_hidden == o.show_hidden && !f.fuzzy_active
            && f.search == o.search && f.cursor == o.cursor && r is Cancelled
    } else {
        f == o && r is Continue
    }
}

impl FilePicker {
    /// Handles a key outside search mode (see `handle_event`).
    fn handle_browse_key(&mut self, k: &KeyPress) -> (r: PickerStep)
        requires
            !old(self).fuzzy_active,
            k.press,
        ensures
            browse_key_step(*old(self), *final(self), *k, r),
    {
        let n = self.entries.len();
        let key = k.key;
        if key == Key::Char('f') || key == Key::Tab {
            self.fuzzy_active = true;
            self.search.pattern = String::new();
            self.search.cursor = 0;
            self.refresh_matches();
            PickerStep::Continue
        } else if key == Key::Down || key == Key::Char('j') {
            if n > 0 {
                let i = match self.cursor {
                    Some(i) => i,
                    None => 0,
                };
                self.cursor = Some(((i as u128 + 1) % (n as u128)) as usize);
            }
            PickerStep::Continue
        } else if key == Key::Up || key == Key::Char('k') {
            if n > 0 {
                let i = match self.cursor {
                    Some(i) => i,
                    None => 0,
                };
                self.cursor = Some(
                    if i == 0 {
                        n - 1
                    } else {
                        i - 1
                    },
                );
            }
            PickerStep::Continue
        } else if key == Key::Right || key == Key::Char('l') {
            match self.cursor {
                Some(i) => {
                    if i < n && self.entries[i].is_dir {
                        self.current_dir = self.entries[i].path.clone();
                        PickerStep::Reload
                    } else {
                        PickerStep::Continue
                    }
                },
                None => PickerStep::Continue,
            }
        } else if key == Key::Left || key == Key::Char('h') {
            match path_parent(self.current_dir.as_str()) {
                Some(p) => {
                    self.current_dir = p;
                    PickerStep::Reload
                },
                None => PickerStep::Continue,
            }
        } else if key == Key::Char(' ') {
            match self.cursor {
                Some(i) => {
                    if i < n {
                        let path = self.entries[i].path.clone();
                        let deselect = self.is_selected(path.as_str());
                        PickerStep::Toggle { path, deselect }
                    } else {
                        PickerStep::Continue
                    }
                },
                None => PickerStep::Continue,
            }
        } else if key == Key::Char('.') {
            self.show_hidden = !self.show_hidden;
            PickerStep::Reload
        } else if key == Key::Enter {
            self.confirmed = true;
            PickerStep::Confirm
        } else if key == Key::Esc || (key == Key::Char('c') && k.ctrl) {
            self.cancelled = true;
            PickerStep::Cancelled
        } else {
            PickerStep::Continue
        }
    }

    /// Reacts to a key: keys that are not presses do nothing; in search mode keys edit
    /// the search and move among the matches; otherwise they move, enter and leave
    /// directories, toggle selections and hidden entries, confirm or cancel. Changing
    /// directory or hidden entries asks for the directory to be listed again.
    pub fn handle_event(&mut self, k: &KeyPress) -> (r: PickerStep)
        requires
            old(self).event_safe(*k),
        ensures
            picker_step(*old(self), *final(self), *k, r),
    {
        if !k.press {
            return PickerStep::Continue;
        }
        if self.fuzzy_active {
            self.handle_search_key(k)
        } else {
            self.handle_browse_key(k)
        }
    }

    /// Applies a toggle: unselects `path` and `under` when `deselect`, selects them
    /// otherwise.
    pub fn apply_toggle(&mut self, path: &String, deselect: bool, under: &Vec<String>)
        ensures
            deselect ==> path_set(final(self).selected@) == path_set(old(self).selected@).difference(
                path_set(under@).insert(path@),
            ),
            !deselect ==> path_set(final(self).selected@) == path_set(old(self).selected@).union(
                path_set(under@).insert(path@),
            ),
            final(self).entries == old(self).entries,
            final(self).search == old(self).search,
            final(self).cursor == old(self).cursor,
            final(self).current_dir == old(self).current_dir,
            final(self).show_hidden == old(self).show_hidden,
            final(self).fuzzy_active == old(self).fuzzy_active,
            final(self).root == old(self).root,
            final(self).confirmed == old(self).confirmed,
            final(self).cancelled == old(self).cancelled,
    {
        let mut all: Vec<String> = Vec::new();
        all.push(path.clone());
        let mut i: usize = 0;
        while i < under.len()
            invariant
                i <= under@.len(),
                all@.len() == i + 1,
                all@[0]@ == path@,
                forall|j: int| 0 <= j < i ==> (#[trigger] all@[j + 1])@ == under@[j]@,
            decreases under@.len() - i,
        {
            all.push(under[i].clone());
            i = i + 1;
        }
        assert(path_set(all@) =~= path_set(under@).insert(path@)) by {
            assert forall|q: Seq<char>| path_set(all@).contains(q) implies path_set(under@).insert(path@).contains(q) by {
                let j = choose|j: int| 0 <= j < all@.len() && all@[j]@ == q;
                if j > 0 {
                    assert(all@[(j - 1) + 1]@ == under@[j - 1]@);
                }
            }
            assert forall|q: Seq<char>| path_set(under@).insert(path@).contains(q) implies path_set(all@).contains(q) by {
                if q != path@ {
                    let j = choose|j: int| 0 <= j < under@.len() && under@[j]@ == q;
                    assert(all@[j + 1]@ == under@[j]@);
                }
            }
        }
        if deselect {
            self.deselect_paths(&all);
        } else {
            self.select_paths(&all);
        }
    }

    /// The selected paths that are files (`is_file[i]` tells whether `selected[i]` is
    /// one), without hidden ones unless hidden entries are shown; each once.
    pub fn confirm_files(&self, is_file: &Vec<bool>) -> (r: Vec<String>)
        requires
            is_file@.len() == self.selected@.len(),
        ensures
            forall|a: int, b: int| 0 <= a < b < r@.len() ==> r@[a]@ != r@[b]@,
            forall|q: Seq<char>| path_set(r@).contains(q) <==> exists|i: int|
                0 <= i < self.selected@.len() && self.selected@[i]@ == q && is_file@[i] && (
                self.show_hidden || !hidden_path(q)),
    {
        let mut out: Vec<String> = Vec::new();
        let mut i: usize = 0;
        let mut dot: Vec<char> = Vec::new();
        dot.push('.');
        assert(dot@ =~= seq!['.']);
        while i < self.selected.len()
            invariant
                i <= self.selected@.len(),
                is_file@.len() == self.selected@.len(),
                dot@ == seq!['.'],
                forall|a: int, b: int| 0 <= a < b < out@.len() ==> out@[a]@ != out@[b]@,
                forall|q: Seq<char>| path_set(out@).contains(q) <==> exists|j: int|
                    0 <= j < i && self.selected@[j]@ == q && is_file@[j] && (self.show_hidden
                        || !hidden_path(q)),
            decreases self.selected@.len() - i,
        {
            let p = &self.selected[i];
            let hidden = match file_name_of(&chars_of(p.as_str())) {
                Some(n) => vec_starts_with(&n, &dot),
                None => false,
            };
            assert(hidden == hidden_path(p@));
            let ghost before = out@;
            if is_file[i] && (self.show_hidden || !hidden) {
                let mut present = false;
                let mut k: usize = 0;
                while k < out.len() && !present
                    invariant
                        k <= out@.len(),
                        present ==> path_set(out@).contains(p@),
                        !present ==> forall|m: int| 0 <= m < k ==> out@[m]@ != p@,
                    decreases out@.len() - k,
                {
                    if str_eq(out[k].as_str(), p.as_str()) {
                        present = true;
                    }
                    k = k + 1;
                }
                if !present {
                    out.push(p.clone());
                }
            }
            proof {
                assert forall|a: int, b: int| 0 <= a < b < out@.len() implies out@[a]@ != out@[b]@ by {
                    if b >= before.len() {
                        assert(out@[a] == before[a]);
                    } else {
                        assert(out@[a] == before[a] && out@[b] == before[b]);
                    }
                }
                assert forall|q: Seq<char>| path_set(out@).contains(q) <==> exists|j: int|
                    0 <= j < i + 1 && self.selected@[j]@ == q && is_file@[j] && (self.show_hidden
                        || !hidden_path(q)) by {
                    if path_set(out@).contains(q) {
                        let m = choose|m: int| 0 <= m < out@.len() && out@[m]@ == q;
                        if m < before.len() {
                            assert(out@[m] == before[m]);
                            assert(path_set(before).contains(q));
                        }
                    }
                    if exists|j: int|
                        0 <= j < i + 1 && self.selected@[j]@ == q && is_file@[j] && (
                        self.show_hidden || !hidden_path(q)) {
                        let j = choose|j: int|
                            0 <= j < i + 1 && self.selected@[j]@ == q && is_file@[j] && (
                            self.show_hidden || !hidden_path(q));
                        if j < i {
                            assert(path_set(before).contains(q));
                            let m = choose|m: int| 0 <= m < before.len() && before[m]@ == q;
                            assert(out@[m] == before[m]);
                        } else if out@.len() > before.len() {
                            assert(out@[before.len() as int]@ == q);
                        }
                    }
                }
            }
            i = i + 1;
        }
        out
    }

    /// Whether a directory shows as fully selected and as partly selected, given its
    /// children that can be selected: fully when it has some and all are selected,
    /// partly when some but not all are.
    pub fn dir_marks(&self, children: &Vec<String>) -> (r: (bool, bool))
        ensures
            r == dir_marks_spec(
                children@.len() as int,
                selected_count(children@, path_set(self.selected@), children@.len() as int),
            ),
    {
        let mut count: usize = 0;
        let mut i: usize = 0;
        while i < children.len()
            invariant
                i <= children@.len(),
                count as int == selected_count(children@, path_set(self.selected@), i as int),
                count <= i,
            decreases children@.len() - i,
        {
            if self.is_selected(children[i].as_str()) {
                count = count + 1;
            }
            i = i + 1;
        }
        let n = children.len();
        if n == 0 {
            (false, false)
        } else if count == n {
            (true, false)
        } else if count > 0 {
            (false, true)
        } else {
            (false, false)
        }
    }
}

/// How many of the first `k` paths are in `sel`.
pub open spec fn selected_count(paths: Seq<String>, sel: Set<Seq<char>>, k: int) -> int
    decreases k,
{
    if k <= 0 {
        0
    } else {
        selected_count(paths, sel, k - 1) + if sel.contains(paths[k - 1]@) {
            1int
        } else {
            0
        }
    }
}

/// Full and partial selection marks from a count of children and of selected ones.
pub open spec fn dir_marks_spec(visible: int, selected: int) -> (bool, bool) {
    if visible == 0 {
        (false, false)
    } else if selected == visible {
        (true, false)
    } else if selected > 0 {
        (false, true)
    } else {
        (false, false)
    }
}

/// The list line of an entry: a selection mark (a check mark when fully selected, a
/// small diamond when partly selected, three spaces otherwise), a folder or page icon,
/// a space, and the name.
pub open spec fn entry_label_spec(full: bool, partial: bool, is_dir: bool, name: Seq<char>) -> Seq<char> {
    (if full {
        "\u{2705} "@
    } else if partial {
        "\u{1F539} "@
    } else {
        "   "@
    }) + (if is_dir {
        "\u{1F4C1}"@
    } else {
        "\u{1F4C4}"@
    }) + " "@ + name
}

/// The list line of an entry (see `entry_label_spec`).
pub fn entry_label(full: bool, partial: bool, is_dir: bool, name: &str) -> (r: String)
    ensures
        r@ == entry_label_spec(full, partial, is_dir, name@),
{
    let mut s = if full {
        String::from_str("\u{2705} ")
    } else if partial {
        String::from_str("\u{1F539} ")
    } else {
        String::from_str("   ")
    };
    if is_dir {
        s.append("\u{1F4C1}");
    } else {
        s.append("\u{1F4C4}");
    }
    s.append(" ");
    s.append(name);
    s
}

} // verus!
