use vstd::prelude::*;
use vstd::string::StringExecFns;

use crate::paths::{name_parts, normalize_sep, normalized_sep, path_name_parts};
use crate::text::{
    chars_of, copy_str, has_char, has_substring, is_prefix, string_of, trim, trim_str,
};

verus! {

/// A collected file: its absolute path and its path relative to the searched root
/// (with `/` separators).
#[derive(Debug, Clone)]
pub struct FileEntry {
    pub absolute: String,
    pub relative: String,
}

impl FileEntry {
    /// A field-by-field copy.
    pub fn copy(&self) -> (r: Self)
        ensures
            r == *self,
    {
        FileEntry { absolute: self.absolute.clone(), relative: self.relative.clone() }
    }
}

/// Whether `pattern` is a valid glob (what `glob::Pattern::new` accepts).
pub uninterp spec fn glob_compiles(pattern: Seq<char>) -> bool;

/// Whether the compiled `pattern` matches `text` (what `glob::Pattern::matches` returns).
pub uninterp spec fn glob_matches(pattern: Seq<char>, text: Seq<char>) -> bool;

/// `glob::Pattern::new(pattern).is_ok()`: whether `pattern` is a valid glob.
#[verifier::external_body]
pub(crate) fn glob_is_valid(pattern: &str) -> (r: bool)
    ensures
        r == glob_compiles(pattern@),
{
    glob::Pattern::new(pattern).is_ok()
}

/// `glob::Pattern::matches` on the pattern compiled from `pattern` (which compiles):
/// whether `text` matches it.
#[verifier::external_body]
pub(crate) fn glob_match(pattern: &str, text: &str) -> (r: bool)
    requires
        glob_compiles(pattern@),
    ensures
        r == glob_matches(pattern@, text@),
{
    match glob::Pattern::new(pattern) {
        Ok(p) => p.matches(text),
        Err(_) => false,
    }
}

/// A file exclusion rule.
#[derive(Debug, Clone)]
pub enum ExcludePattern {
    /// A path relative to the root: that file, or everything under it.
    LiteralPath(String),
    /// A glob matched against the file name.
    GlobBasename(String),
    /// A glob matched against the relative path.
    GlobPath(String),
}

/// A directory exclusion rule.
#[derive(Debug, Clone)]
pub enum DirExcludePattern {
    /// A directory name, at any depth.
    LiteralBasename(String),
    /// A directory path relative to the root, and everything under it.
    LiteralPath(String),
    /// A glob matched against the directory name.
    GlobBasename(String),
    /// A glob matched against the directory's relative path.
    GlobPath(String),
}

/// The kind of a rule and its text.
pub enum RuleKind {
    LiteralBasename,
    LiteralPath,
    GlobBasename,
    GlobPath,
}

impl ExcludePattern {
    /// The rule's kind and text.
    pub open spec fn view(&self) -> (RuleKind, Seq<char>) {
        match self {
            ExcludePattern::LiteralPath(s) => (RuleKind::LiteralPath, s@),
            ExcludePattern::GlobBasename(s) => (RuleKind::GlobBasename, s@),
            ExcludePattern::GlobPath(s) => (RuleKind::GlobPath, s@),
        }
    }
}

impl DirExcludePattern {
    /// The rule's kind and text.
    pub open spec fn view(&self) -> (RuleKind, Seq<char>) {
        match self {
            DirExcludePattern::LiteralBasename(s) => (RuleKind::LiteralBasename, s@),
            DirExcludePattern::LiteralPath(s) => (RuleKind::LiteralPath, s@),
            DirExcludePattern::GlobBasename(s) => (RuleKind::GlobBasename, s@),
            DirExcludePattern::GlobPath(s) => (RuleKind::GlobPath, s@),
        }
    }
}

/// Whether `s` holds a glob metacharacter (`*`, `?` or `[`).
pub open spec fn has_glob_chars_spec(s: Seq<char>) -> bool {
    has_char(s, '*') || has_char(s, '?') || has_char(s, '[')
}

/// The prefix that marks a rule as a literal path.
pub open spec fn literal_prefix() -> Seq<char> {
    seq!['l', 'i', 't', 'e', 'r', 'a', 'l', ':']
}

/// Whether a glob rule applies to whole relative paths (it holds `/` or `**`) rather
/// than to names.
pub open spec fn is_path_glob(s: Seq<char>) -> bool {
    has_char(s, '/') || has_substring(s, seq!['*', '*'])
}

/// How a file exclusion rule is read: `literal:` followed by a path is that path
/// (trimmed, separators normalized); a valid glob is matched against the relative path
/// when it holds `/` or `**`, and against the file name otherwise; anything else is a
/// path with its separators normalized.
pub open spec fn classify_exclude_spec(raw: Seq<char>) -> (RuleKind, Seq<char>) {
    if is_prefix(literal_prefix(), raw) {
        (RuleKind::LiteralPath, normalized_sep(trim(raw.skip(8))))
    } else if has_glob_chars_spec(raw) && glob_compiles(raw) {
        if is_path_glob(raw) {
            (RuleKind::GlobPath, raw)
        } else {
            (RuleKind::GlobBasename, raw)
        }
    } else {
        (RuleKind::LiteralPath, normalized_sep(raw))
    }
}

/// How a directory exclusion rule is read: `literal:` followed by a name is that name
/// (trimmed); valid globs as for files; otherwise a path when it holds `/`, else a name.
pub open spec fn classify_dir_exclude_spec(raw: Seq<char>) -> (RuleKind, Seq<char>) {
    if is_prefix(literal_prefix(), raw) {
        (RuleKind::LiteralBasename, trim(raw.skip(8)))
    } else if has_glob_chars_spec(raw) && glob_compiles(raw) {
        if is_path_glob(raw) {
            (RuleKind::GlobPath, raw)
        } else {
            (RuleKind::GlobBasename, raw)
        }
    } else if has_char(raw, '/') {
        (RuleKind::LiteralPath, normalized_sep(raw))
    } else {
        (RuleKind::LiteralBasename, raw)
    }
}

/// Whether `rel` is the path `p` or lies under it.
pub open spec fn at_or_under(rel: Seq<char>, p: Seq<char>) -> bool {
    rel == p || is_prefix(p.push('/'), rel)
}

/// Whether a rule excludes a file or directory with the given name and relative path.
pub open spec fn rule_matches(rule: (RuleKind, Seq<char>), name: Seq<char>, rel: Seq<char>) -> bool {
    match rule.0 {
        RuleKind::LiteralBasename => name == rule.1,
        RuleKind::LiteralPath => at_or_under(rel, rule.1),
        RuleKind::GlobBasename => glob_matches(rule.1, name),
        RuleKind::GlobPath => glob_matches(rule.1, rel),
    }
}

/// Whether any of `rules` matches.
pub open spec fn any_rule_matches(
    rules: Seq<(RuleKind, Seq<char>)>,
    name: Seq<char>,
    rel: Seq<char>,
) -> bool {
    exists|i: int| 0 <= i < rules.len() && rule_matches(#[trigger] rules[i], name, rel)
}

/// Whether a character occurs in `v`.
pub fn vec_has_char(v: &Vec<char>, c: char) -> (r: bool)
    ensures
        r == has_char(v@, c),
{
    let mut i: usize = 0;
    while i < v.len()
        invariant
            i <= v.len(),
            forall|j: int| 0 <= j < i ==> v@[j] != c,
        decreases v.len() - i,
    {
        if v[i] == c {
            return true;
        }
        i = i + 1;
    }
    false
}

/// Whether `**` occurs in `v`.
fn vec_has_double_star(v: &Vec<char>) -> (r: bool)
    ensures
        r == has_substring(v@, seq!['*', '*']),
{
    let mut i: usize = 0;
    while i < v.len() && i + 1 < v.len()
        invariant
            i <= v.len(),
            forall|j: int| 0 <= j < i && j + 1 < v.len() ==> !(#[trigger] v@[j] == '*' && v@[j + 1] == '*'),
        decreases v.len() - i,
    {
        if v[i] == '*' && v[i + 1] == '*' {
            assert(v@.subrange(i as int, i + 2) =~= seq!['*', '*']);
            return true;
        }
        i = i + 1;
    }
    assert forall|j: int| 0 <= j <= v@.len() - 2 implies #[trigger] v@.subrange(j, j + 2) != seq![
        '*',
        '*',
    ] by {
        if v@.subrange(j, j + 2) == seq!['*', '*'] {
            assert(v@.subrange(j, j + 2)[0] == v@[j]);
            assert(v@.subrange(j, j + 2)[1] == v@[j + 1]);
        }
    }
    false
}

/// Whether `p` is a prefix of `v`.
pub fn vec_starts_with(v: &Vec<char>, p: &Vec<char>) -> (r: bool)
    ensures
        r == is_prefix(p@, v@),
{
    if p.len() > v.len() {
        return false;
    }
    let mut i: usize = 0;
    while i < p.len()
        invariant
            p.len() <= v.len(),
            i <= p.len(),
            forall|j: int| 0 <= j < i ==> v@[j] == p@[j],
        decreases p.len() - i,
    {
        if v[i] != p[i] {
            assert(v@.take(p.len() as int)[i as int] != p@[i as int]);
            return false;
        }
        i = i + 1;
    }
    assert(v@.take(p.len() as int) =~= p@);
    true
}

/// Whether two character vectors are equal.
pub fn vec_eq(a: &Vec<char>, b: &Vec<char>) -> (r: bool)
    ensures
        r == (a@ == b@),
{
    if a.len() != b.len() {
        return false;
    }
    let r = vec_starts_with(a, b);
    proof {
        if a@ == b@ {
            assert(a@.take(b.len() as int) =~= b@);
        }
        if r {
            assert(a@.take(b.len() as int) =~= a@);
        }
    }
    r
}

/// Whether two strings are equal.
pub fn str_eq(a: &str, b: &str) -> (r: bool)
    ensures
        r == (a@ == b@),
{
    let va = chars_of(a);
    let vb = chars_of(b);
    vec_eq(&va, &vb)
}

/// Whether `s` holds a glob metacharacter.
pub fn has_glob_chars(s: &str) -> (r: bool)
    ensures
        r == has_glob_chars_spec(s@),
{
    let v = chars_of(s);
    vec_has_char(&v, '*') || vec_has_char(&v, '?') || vec_has_char(&v, '[')
}

/// Reads a file exclusion rule.
pub fn classify_exclude(raw: &str) -> (r: ExcludePattern)
    ensures
        r.view() == classify_exclude_spec(raw@),
{
    let v = chars_of(raw);
    let lit = chars_of("literal:");
    proof {
        reveal_strlit("literal:");
        assert("literal:"@ =~= literal_prefix());
    }
    if vec_starts_with(&v, &lit) {
        let mut rest: Vec<char> = Vec::new();
        let mut i: usize = 8;
        while i < v.len()
            invariant
                8 <= i <= v.len(),
                rest@ == v@.subrange(8, i as int),
            decreases v.len() - i,
        {
            rest.push(v[i]);
            assert(v@.subrange(8, i + 1) =~= v@.subrange(8, i as int).push(v@[i as int]));
            i = i + 1;
        }
        assert(rest@ =~= v@.skip(8));
        let rs = string_of(&rest);
        let t = trim_str(rs.as_str());
        return ExcludePattern::LiteralPath(normalize_sep(t.as_str()));
    }
    if has_glob_chars(raw) && glob_is_valid(raw) {
        if vec_has_char(&v, '/') || vec_has_double_star(&v) {
            return ExcludePattern::GlobPath(copy_str(raw));
        } else {
            return ExcludePattern::GlobBasename(copy_str(raw));
        }
    }
    ExcludePattern::LiteralPath(normalize_sep(raw))
}

/// Reads a directory exclusion rule.
pub fn classify_dir_exclude(raw: &str) -> (r: DirExcludePattern)
    ensures
        r.view() == classify_dir_exclude_spec(raw@),
{
    let v = chars_of(raw);
    let lit = chars_of("literal:");
    proof {
        reveal_strlit("literal:");
        assert("literal:"@ =~= literal_prefix());
    }
    if vec_starts_with(&v, &lit) {
        let mut rest: Vec<char> = Vec::new();
        let mut i: usize = 8;
        while i < v.len()
            invariant
                8 <= i <= v.len(),
                rest@ == v@.subrange(8, i as int),
            decreases v.len() - i,
        {
            rest.push(v[i]);
            assert(v@.subrange(8, i + 1) =~= v@.subrange(8, i as int).push(v@[i as int]));
            i = i + 1;
        }
        assert(rest@ =~= v@.skip(8));
        let rs = string_of(&rest);
        return DirExcludePattern::LiteralBasename(trim_str(rs.as_str()));
    }
    if has_glob_chars(raw) && glob_is_valid(raw) {
        if vec_has_char(&v, '/') || vec_has_double_star(&v) {
            return DirExcludePattern::GlobPath(copy_str(raw));
        } else {
            return DirExcludePattern::GlobBasename(copy_str(raw));
        }
    }
    if vec_has_char(&v, '/') {
        DirExcludePattern::LiteralPath(normalize_sep(raw))
    } else {
        DirExcludePattern::LiteralBasename(copy_str(raw))
    }
}

/// Whether `rel` is `p` or lies under it.
fn path_at_or_under(rel: &str, p: &str) -> (r: bool)
    ensures
        r == at_or_under(rel@, p@),
{
    let rv = chars_of(rel);
    let mut pv = chars_of(p);
    if vec_eq(&rv, &pv) {
        return true;
    }
    pv.push('/');
    vec_starts_with(&rv, &pv)
}

impl ExcludePattern {
    /// Whether this rule excludes a file with the given name and relative path.
    pub fn matches(&self, name: &str, rel: &str) -> (r: bool)
        requires
            self.wf(),
        ensures
            r == rule_matches(self.view(), name@, rel@),
    {
        match self {
            ExcludePattern::LiteralPath(p) => path_at_or_under(rel, p.as_str()),
            ExcludePattern::GlobBasename(g) => glob_match(g.as_str(), name),
            ExcludePattern::GlobPath(g) => glob_match(g.as_str(), rel),
        }
    }

    /// Glob rules hold valid globs.
    pub open spec fn wf(&self) -> bool {
        match self {
            ExcludePattern::GlobBasename(g) => glob_compiles(g@),
            ExcludePattern::GlobPath(g) => glob_compiles(g@),
            _ => true,
        }
    }
}

impl DirExcludePattern {
    /// Whether this rule excludes a directory with the given name and relative path.
    pub fn matches(&self, name: &str, rel: &str) -> (r: bool)
        requires
            self.wf(),
        ensures
            r == rule_matches(self.view(), name@, rel@),
    {
        match self {
            DirExcludePattern::LiteralBasename(b) => str_eq(name, b.as_str()),
            DirExcludePattern::LiteralPath(p) => path_at_or_under(rel, p.as_str()),
            DirExcludePattern::GlobBasename(g) => glob_match(g.as_str(), name),
            DirExcludePattern::GlobPath(g) => glob_match(g.as_str(), rel),
        }
    }

    /// Glob rules hold valid globs.
    pub open spec fn wf(&self) -> bool {
        match self {
            DirExcludePattern::GlobBasename(g) => glob_compiles(g@),
            DirExcludePattern::GlobPath(g) => glob_compiles(g@),
            _ => true,
        }
    }
}

/// Rules read from text hold valid globs whenever they are glob rules.
pub proof fn lemma_classified_wf(raw: Seq<char>)
    ensures
        classify_exclude_spec(raw).0 is GlobBasename || classify_exclude_spec(raw).0 is GlobPath
            ==> glob_compiles(classify_exclude_spec(raw).1),
        classify_dir_exclude_spec(raw).0 is GlobBasename || classify_dir_exclude_spec(raw).0 is GlobPath
            ==> glob_compiles(classify_dir_exclude_spec(raw).1),
{
}

/// The rules read from a list of directory exclusions.
pub open spec fn dir_rules(raw: Seq<String>) -> Seq<(RuleKind, Seq<char>)> {
    raw.map_values(|r: String| classify_dir_exclude_spec(r@))
}

/// The rules read from a list of file exclusions.
pub open spec fn file_rules(raw: Seq<String>) -> Seq<(RuleKind, Seq<char>)> {
    raw.map_values(|r: String| classify_exclude_spec(r@))
}

/// Reads every directory exclusion rule.
pub fn compile_dir_patterns(raw: &Vec<String>) -> (r: Vec<DirExcludePattern>)
    ensures
        r@.len() == raw@.len(),
        forall|i: int| 0 <= i < r@.len() ==> (#[trigger] r@[i]).view() == dir_rules(raw@)[i],
        forall|i: int| 0 <= i < r@.len() ==> (#[trigger] r@[i]).wf(),
{
    let mut out: Vec<DirExcludePattern> = Vec::new();
    let mut i: usize = 0;
    while i < raw.len()
        invariant
            i <= raw.len(),
            out@.len() == i,
            forall|j: int| 0 <= j < i ==> (#[trigger] out@[j]).view() == dir_rules(raw@)[j],
            forall|j: int| 0 <= j < i ==> (#[trigger] out@[j]).wf(),
        decreases raw.len() - i,
    {
        let p = classify_dir_exclude(raw[i].as_str());
        proof {
            lemma_classified_wf(raw@[i as int]@);
        }
        out.push(p);
        i = i + 1;
    }
    out
}

/// Reads every file exclusion rule.
pub fn compile_file_patterns(raw: &Vec<String>) -> (r: Vec<ExcludePattern>)
    ensures
        r@.len() == raw@.len(),
        forall|i: int| 0 <= i < r@.len() ==> (#[trigger] r@[i]).view() == file_rules(raw@)[i],
        forall|i: int| 0 <= i < r@.len() ==> (#[trigger] r@[i]).wf(),
{
    let mut out: Vec<ExcludePattern> = Vec::new();
    let mut i: usize = 0;
    while i < raw.len()
        invariant
            i <= raw.len(),
            out@.len() == i,
            forall|j: int| 0 <= j < i ==> (#[trigger] out@[j]).view() == file_rules(raw@)[j],
            forall|j: int| 0 <= j < i ==> (#[trigger] out@[j]).wf(),
        decreases raw.len() - i,
    {
        let p = classify_exclude(raw[i].as_str());
        proof {
            lemma_classified_wf(raw@[i as int]@);
        }
        out.push(p);
        i = i + 1;
    }
    out
}

/// Whether a directory walk keeps an entry (and, for a directory, descends into it):
/// the root always; otherwise hidden names only when hidden files are wanted, and a
/// directory only when no directory rule matches its name or relative path.
pub open spec fn walk_keeps(
    depth: nat,
    name: Seq<char>,
    rel: Seq<char>,
    is_dir: bool,
    include_hidden: bool,
    rules: Seq<(RuleKind, Seq<char>)>,
) -> bool {
    depth == 0 || ((include_hidden || !is_prefix(seq!['.'], name)) && !(is_dir
        && any_rule_matches(rules, name, rel)))
}

/// The rules that a list of directory patterns stands for.
pub open spec fn dir_pattern_views(ps: Seq<DirExcludePattern>) -> Seq<(RuleKind, Seq<char>)> {
    ps.map_values(|p: DirExcludePattern| p.view())
}

/// What collecting gives for a root that is a single file: nothing when the file looks
/// binary, else that file alone, under the name that it was given by.
pub fn single_file_entries(absolute: String, relative: String, binary: bool) -> (r: Vec<
    FileEntry,
>)
    ensures
        binary ==> r@.len() == 0,
        !binary ==> r@.len() == 1 && r@[0].absolute@ == absolute@ && r@[0].relative@
            == relative@,
{
    let mut r: Vec<FileEntry> = Vec::new();
    if !binary {
        r.push(FileEntry { absolute, relative });
    }
    r
}

/// The walk's decision for one entry (see `walk_keeps`).
pub fn walk_entry_kept(
    depth: usize,
    name: &str,
    rel: &str,
    is_dir: bool,
    include_hidden: bool,
    patterns: &Vec<DirExcludePattern>,
) -> (r: bool)
    requires
        forall|i: int| 0 <= i < patterns@.len() ==> (#[trigger] patterns@[i]).wf(),
    ensures
        r == walk_keeps(
            depth as nat,
            name@,
            rel@,
            is_dir,
            include_hidden,
            dir_pattern_views(patterns@),
        ),
{
    let ghost rules = dir_pattern_views(patterns@);
    if depth == 0 {
        return true;
    }
    let nv = chars_of(name);
    let mut dot: Vec<char> = Vec::new();
    dot.push('.');
    assert(dot@ =~= seq!['.']);
    if !include_hidden && vec_starts_with(&nv, &dot) {
        return false;
    }
    if is_dir {
        let mut i: usize = 0;
        while i < patterns.len()
            invariant
                i <= patterns@.len(),
                depth != 0,
                is_dir,
                include_hidden || !is_prefix(seq!['.'], name@),
                rules == dir_pattern_views(patterns@),
                forall|j: int| 0 <= j < patterns@.len() ==> (#[trigger] patterns@[j]).wf(),
                forall|j: int| 0 <= j < i ==> !rule_matches(#[trigger] rules[j], name@, rel@),
            decreases patterns.len() - i,
        {
            assert(rules[i as int] == patterns@[i as int].view());
            if patterns[i].matches(name, rel) {
                assert(rule_matches(rules[i as int], name@, rel@));
                assert(any_rule_matches(rules, name@, rel@));
                return false;
            }
            i = i + 1;
        }
    }
    true
}

/// The largest depth a walk descends to: one level below `max_depth`, or without
/// limit.
pub fn max_walk_depth(max_depth: Option<usize>) -> (r: usize)
    requires
        max_depth matches Some(d) ==> d < usize::MAX,
    ensures
        r == match max_depth {
            Some(d) => (d + 1) as usize,
            None => usize::MAX,
        },
{
    match max_depth {
        Some(d) => d + 1,
        None => usize::MAX,
    }
}

/// Whether an `--only` list keeps a file with the given name, dotted extension and stem:
/// a pattern starting with `.` must equal the extension; any other must equal the
/// name or the stem.
pub open spec fn only_keeps(patterns: Seq<Seq<char>>, parts: (Seq<char>, Seq<char>, Seq<char>)) -> bool {
    patterns.len() == 0 || exists|i: int|
        0 <= i < patterns.len() && #[trigger] pattern_keeps(patterns[i], parts)
}

/// Whether one `--only` pattern selects a file with the given name, dotted extension
/// and stem: a pattern starting with `.` must equal the extension; any other must equal
/// the name or the stem.
pub open spec fn pattern_keeps(p: Seq<char>, parts: (Seq<char>, Seq<char>, Seq<char>)) -> bool {
    if is_prefix(seq!['.'], p) {
        parts.1 == p
    } else {
        parts.0 == p || parts.2 == p
    }
}

/// The entries of `s` that `keep` keeps, in order.
pub open spec fn filter_entries(s: Seq<FileEntry>, keep: spec_fn(FileEntry) -> bool) -> Seq<
    FileEntry,
>
    decreases s.len(),
{
    if s.len() == 0 {
        Seq::empty()
    } else if keep(s.last()) {
        filter_entries(s.drop_last(), keep).push(s.last())
    } else {
        filter_entries(s.drop_last(), keep)
    }
}

/// The character views of a list of strings.
pub open spec fn str_views(v: Seq<String>) -> Seq<Seq<char>> {
    v.map_values(|s: String| s@)
}

fn pattern_keeps_exec(p: &str, name: &str, ext: &str, stem: &str) -> (r: bool)
    ensures
        r == pattern_keeps(p@, (name@, ext@, stem@)),
{
    let pv = chars_of(p);
    let mut dot: Vec<char> = Vec::new();
    dot.push('.');
    assert(dot@ =~= seq!['.']);
    if vec_starts_with(&pv, &dot) {
        str_eq(ext, p)
    } else {
        str_eq(name, p) || str_eq(stem, p)
    }
}

/// Keeps the entries that an `--only` list selects (all of them when the list is empty).
pub fn filter_by_only(entries: &Vec<FileEntry>, patterns: &Vec<String>) -> (r: Vec<FileEntry>)
    ensures
        r@ == filter_entries(
            entries@,
            |e: FileEntry| only_keeps(str_views(patterns@), name_parts(e.absolute@)),
        ),
{
    let ghost keep = |e: FileEntry| only_keeps(str_views(patterns@), name_parts(e.absolute@));
    let mut out: Vec<FileEntry> = Vec::new();
    let mut i: usize = 0;
    assert(entries@.take(0) =~= Seq::<FileEntry>::empty());
    while i < entries.len()
        invariant
            i <= entries.len(),
            keep == (|e: FileEntry| only_keeps(str_views(patterns@), name_parts(e.absolute@))),
            out@ == filter_entries(entries@.take(i as int), keep),
        decreases entries.len() - i,
    {
        let e = &entries[i];
        let (name, ext, stem) = path_name_parts(e.absolute.as_str());
        let mut kept = patterns.len() == 0;
        let mut j: usize = 0;
        while j < patterns.len() && !kept
            invariant
                j <= patterns.len(),
                (name@, ext@, stem@) == name_parts(e.absolute@),
                kept ==> only_keeps(str_views(patterns@), name_parts(e.absolute@)),
                !kept ==> patterns.len() != 0 && forall|k: int|
                    0 <= k < j ==> !pattern_keeps(
                        #[trigger] str_views(patterns@)[k],
                        name_parts(e.absolute@),
                    ),
            decreases patterns.len() - j,
        {
            if pattern_keeps_exec(patterns[j].as_str(), name.as_str(), ext.as_str(), stem.as_str()) {
                assert(pattern_keeps(str_views(patterns@)[j as int], name_parts(e.absolute@)));
                kept = true;
            }
            j = j + 1;
        }
        proof {
            assert(entries@.take(i + 1).drop_last() =~= entries@.take(i as int));
            assert(entries@.take(i + 1).last() == entries@[i as int]);
            assert(kept == keep(entries@[i as int]));
        }
        if kept {
            out.push(e.copy());
        }
        i = i + 1;
    }
    assert(entries@.take(entries.len() as int) =~= entries@);
    out
}

/// An extension written with or without its leading dot, with the dot.
pub open spec fn dotted(e: Seq<char>) -> Seq<char> {
    if is_prefix(seq!['.'], e) {
        e
    } else {
        seq!['.'] + e
    }
}

/// Whether exclusions drop a file: its dotted extension is among the excluded
/// extensions, or a rule matches its name or relative path.
pub open spec fn excluded(
    rules: Seq<(RuleKind, Seq<char>)>,
    exts: Seq<Seq<char>>,
    e: FileEntry,
) -> bool {
    (exists|i: int| 0 <= i < exts.len() && dotted(#[trigger] exts[i]) == name_parts(e.absolute@).1)
        || any_rule_matches(rules, name_parts(e.absolute@).0, e.relative@)
}

/// Drops the entries that the exclusion rules or excluded extensions match.
pub fn apply_exclusions(
    entries: &Vec<FileEntry>,
    exclude_raw: &Vec<String>,
    exclude_ext_raw: &Vec<String>,
) -> (r: Vec<FileEntry>)
    ensures
        r@ == filter_entries(
            entries@,
            |e: FileEntry| !excluded(file_rules(exclude_raw@), str_views(exclude_ext_raw@), e),
        ),
{
    let ghost rules = file_rules(exclude_raw@);
    let ghost exts = str_views(exclude_ext_raw@);
    let ghost keep = |e: FileEntry| !excluded(rules, exts, e);
    let compiled = compile_file_patterns(exclude_raw);
    let mut dotted_exts: Vec<String> = Vec::new();
    let mut k: usize = 0;
    while k < exclude_ext_raw.len()
        invariant
            k <= exclude_ext_raw.len(),
            exts == str_views(exclude_ext_raw@),
            dotted_exts@.len() == k,
            forall|j: int| 0 <= j < k ==> (#[trigger] dotted_exts@[j])@ == dotted(exts[j]),
        decreases exclude_ext_raw.len() - k,
    {
        let ev = chars_of(exclude_ext_raw[k].as_str());
        let mut dot: Vec<char> = Vec::new();
        dot.push('.');
        assert(dot@ =~= seq!['.']);
        if vec_starts_with(&ev, &dot) {
            dotted_exts.push(exclude_ext_raw[k].clone());
        } else {
            let mut d = String::from_str(".");
            proof {
                reveal_strlit(".");
            }
            d.append(exclude_ext_raw[k].as_str());
            proof {
                assert(d@ =~= seq!['.'] + exts[k as int]);
            }
            dotted_exts.push(d);
        }
        k = k + 1;
    }
    let mut out: Vec<FileEntry> = Vec::new();
    let mut i: usize = 0;
    assert(entries@.take(0) =~= Seq::<FileEntry>::empty());
    while i < entries.len()
        invariant
            i <= entries.len(),
            rules == file_rules(exclude_raw@),
            exts == str_views(exclude_ext_raw@),
            keep == (|e: FileEntry| !excluded(rules, exts, e)),
            compiled@.len() == exclude_raw@.len(),
            forall|j: int| 0 <= j < compiled@.len() ==> (#[trigger] compiled@[j]).view() == rules[j],
            forall|j: int| 0 <= j < compiled@.len() ==> (#[trigger] compiled@[j]).wf(),
            dotted_exts@.len() == exts.len(),
            forall|j: int| 0 <= j < exts.len() ==> (#[trigger] dotted_exts@[j])@ == dotted(exts[j]),
            out@ == filter_entries(entries@.take(i as int), keep),
        decreases entries.len() - i,
    {
        let e = &entries[i];
        let (name, ext, _stem) = path_name_parts(e.absolute.as_str());
        let mut drop = false;
        let mut j: usize = 0;
        while j < dotted_exts.len() && !drop
            invariant
                j <= dotted_exts.len(),
                dotted_exts@.len() == exts.len(),
                forall|m: int| 0 <= m < exts.len() ==> (#[trigger] dotted_exts@[m])@ == dotted(exts[m]),
                ext@ == name_parts(e.absolute@).1,
                drop ==> excluded(rules, exts, *e),
                !drop ==> forall|m: int| 0 <= m < j ==> dotted(#[trigger] exts[m]) != ext@,
            decreases dotted_exts.len() - j,
        {
            if str_eq(dotted_exts[j].as_str(), ext.as_str()) {
                assert(dotted(exts[j as int]) == name_parts(e.absolute@).1);
                drop = true;
            }
            j = j + 1;
        }
        let mut m: usize = 0;
        while m < compiled.len() && !drop
            invariant
                m <= compiled@.len(),
                compiled@.len() == rules.len(),
                forall|q: int| 0 <= q < compiled@.len() ==> (#[trigger] compiled@[q]).view() == rules[q],
                forall|q: int| 0 <= q < compiled@.len() ==> (#[trigger] compiled@[q]).wf(),
                name@ == name_parts(e.absolute@).0,
                drop ==> excluded(rules, exts, *e),
                !drop ==> forall|q: int| 0 <= q < exts.len() ==> dotted(#[trigger] exts[q]) != name_parts(e.absolute@).1,
                !drop ==> forall|q: int| 0 <= q < m ==> !rule_matches(#[trigger] rules[q], name@, e.relative@),
            decreases compiled.len() - m,
        {
            if compiled[m].matches(name.as_str(), e.relative.as_str()) {
                assert(rule_matches(rules[m as int], name_parts(e.absolute@).0, e.relative@));
                drop = true;
            }
            m = m + 1;
        }
        proof {
            assert(entries@.take(i + 1).drop_last() =~= entries@.take(i as int));
            assert(entries@.take(i + 1).last() == entries@[i as int]);
            assert(drop == !keep(entries@[i as int]));
        }
        if !drop {
            out.push(e.copy());
        }
        i = i + 1;
    }
    assert(entries@.take(entries.len() as int) =~= entries@);
    out
}

/// Whether a byte counts as text: a visible ASCII character, a space, a tab, a line
/// feed or a carriage return.
pub open spec fn is_text_byte(b: u8) -> bool {
    (0x21 <= b && b <= 0x7e) || b == 0x20 || b == 0x09 || b == 0x0a || b == 0x0d
}

/// How many of the first `k` bytes of `s` count as text.
pub open spec fn text_byte_count(s: Seq<u8>, k: nat) -> nat
    decreases k,
{
    if k == 0 || k > s.len() {
        0
    } else {
        text_byte_count(s, (k - 1) as nat) + if is_text_byte(s[k - 1]) { 1nat } else { 0nat }
    }
}

/// Whether the start of a file (the bytes read from it) marks it as binary: it holds a
/// zero byte, or fewer than four fifths of its bytes count as text. An empty start is
/// text.
pub open spec fn looks_binary_spec(head: Seq<u8>) -> bool {
    head.len() > 0 && (head.contains(0u8) || 5 * text_byte_count(head, head.len()) < 4 * head.len())
}

/// Whether the start of a file marks it as binary (see `looks_binary_spec`).
pub fn looks_binary(head: &Vec<u8>) -> (r: bool)
    ensures
        r == looks_binary_spec(head@),
{
    let n = head.len();
    if n == 0 {
        return false;
    }
    let mut i: usize = 0;
    let mut text: usize = 0;
    let mut zero = false;
    while i < n
        invariant
            n == head@.len(),
            i <= n,
            text == text_byte_count(head@, i as nat),
            text <= i,
            zero == (exists|j: int| 0 <= j < i && head@[j] == 0u8),
        decreases n - i,
    {
        let b = head[i];
        if b == 0 {
            zero = true;
        }
        if (0x21 <= b && b <= 0x7e) || b == 0x20 || b == 0x09 || b == 0x0a || b == 0x0d {
            text = text + 1;
        }
        i = i + 1;
    }
    proof {
        if zero {
            let j = choose|j: int| 0 <= j < n && head@[j] == 0u8;
            assert(head@.contains(0u8));
        }
        if head@.contains(0u8) {
            let j = choose|j: int| 0 <= j < head@.len() && head@[j] == 0u8;
            assert(zero);
        }
    }
    zero || (text as u128) * 5 < (n as u128) * 4
}

/// Filtering keeps exactly the entries that pass, in their order: every kept entry
/// passes and comes from the input, and every passing entry of the input is kept.
pub proof fn lemma_filter_entries(s: Seq<FileEntry>, keep: spec_fn(FileEntry) -> bool)
    ensures
        filter_entries(s, keep).len() <= s.len(),
        forall|i: int|
            0 <= i < filter_entries(s, keep).len() ==> keep(#[trigger] filter_entries(s, keep)[i])
                && s.contains(filter_entries(s, keep)[i]),
        forall|i: int| 0 <= i < s.len() && keep(#[trigger] s[i]) ==> filter_entries(s, keep).contains(s[i]),
    decreases s.len(),
{
    if s.len() > 0 {
        let t = s.drop_last();
        lemma_filter_entries(t, keep);
        let w = filter_entries(t, keep);
        let r = filter_entries(s, keep);
        assert forall|i: int| 0 <= i < r.len() implies keep(#[trigger] r[i]) && s.contains(r[i]) by {
            if i < w.len() {
                assert(r[i] == w[i]);
                let k = choose|k: int| 0 <= k < t.len() && t[k] == w[i];
                assert(s[k] == t[k]);
            } else {
                assert(r[i] == s.last());
                assert(s[s.len() - 1] == s.last());
            }
        }
        assert forall|i: int| 0 <= i < s.len() && keep(#[trigger] s[i]) implies r.contains(s[i]) by {
            if i < t.len() {
                assert(t[i] == s[i]);
                assert(w.contains(t[i]));
                let k = choose|k: int| 0 <= k < w.len() && w[k] == t[i];
                if keep(s.last()) {
                    assert(r[k] == w[k]);
                }
            } else {
                assert(s[i] == s.last());
                assert(r[r.len() - 1] == s.last());
            }
        }
    }
}

/// Exclusions keep no file that a rule or an excluded extension matches, and keep every
/// other file.
pub proof fn lemma_exclusions(entries: Seq<FileEntry>, exclude_raw: Seq<String>, exclude_ext_raw: Seq<String>)
    ensures
        ({
            let keep = |e: FileEntry| !excluded(file_rules(exclude_raw), str_views(exclude_ext_raw), e);
            let r = filter_entries(entries, keep);
            &&& forall|i: int|
                0 <= i < r.len() ==> !excluded(file_rules(exclude_raw), str_views(exclude_ext_raw), #[trigger] r[i])
            &&& forall|i: int|
                0 <= i < entries.len() && !excluded(
                    file_rules(exclude_raw),
                    str_views(exclude_ext_raw),
                    #[trigger] entries[i],
                ) ==> r.contains(entries[i])
        }),
{
    let keep = |e: FileEntry| !excluded(file_rules(exclude_raw), str_views(exclude_ext_raw), e);
    lemma_filter_entries(entries, keep);
}

/// An `--only` list keeps no file that none of its patterns selects, and keeps every file
/// that one selects.
pub proof fn lemma_only(entries: Seq<FileEntry>, patterns: Seq<String>)
    ensures
        ({
            let keep = |e: FileEntry| only_keeps(str_views(patterns), name_parts(e.absolute@));
            let r = filter_entries(entries, keep);
            &&& forall|i: int|
                0 <= i < r.len() ==> only_keeps(str_views(patterns), name_parts(#[trigger] r[i].absolute@))
            &&& forall|i: int|
                0 <= i < entries.len() && only_keeps(
                    str_views(patterns),
                    name_parts(#[trigger] entries[i].absolute@),
                ) ==> r.contains(entries[i])
        }),
{
    let keep = |e: FileEntry| only_keeps(str_views(patterns), name_parts(e.absolute@));
    lemma_filter_entries(entries, keep);
    let r = filter_entries(entries, keep);
    assert forall|i: int| 0 <= i < r.len() implies only_keeps(str_views(patterns), name_parts(#[trigger] r[i].absolute@)) by {
        assert(keep(r[i]));
    }
    assert forall|i: int| 0 <= i < entries.len() && only_keeps(str_views(patterns), name_parts(#[trigger] entries[i].absolute@)) implies r.contains(entries[i]) by {
        assert(keep(entries[i]));
    }
}

/// `a` is `b` with some entries left out and the others in their order.
pub open spec fn is_subsequence(a: Seq<FileEntry>, b: Seq<FileEntry>) -> bool
    decreases b.len(),
{
    if b.len() == 0 {
        a.len() == 0
    } else {
        is_subsequence(a, b.drop_last()) || (a.len() > 0 && a.last() == b.last()
            && is_subsequence(a.drop_last(), b.drop_last()))
    }
}

/// Filtering leaves entries out and keeps the order of the others.
pub proof fn lemma_filter_subsequence(s: Seq<FileEntry>, keep: spec_fn(FileEntry) -> bool)
    ensures
        is_subsequence(filter_entries(s, keep), s),
    decreases s.len(),
{
    if s.len() > 0 {
        lemma_filter_subsequence(s.drop_last(), keep);
        let w = filter_entries(s.drop_last(), keep);
        if keep(s.last()) {
            assert(w.push(s.last()).drop_last() =~= w);
        }
    }
}

/// Filtering with a test that every entry passes keeps the whole sequence.
pub proof fn lemma_filter_keep_all(s: Seq<FileEntry>, keep: spec_fn(FileEntry) -> bool)
    requires
        forall|i: int| 0 <= i < s.len() ==> keep(#[trigger] s[i]),
    ensures
        filter_entries(s, keep) == s,
    decreases s.len(),
{
    if s.len() > 0 {
        let t = s.drop_last();
        assert forall|i: int| 0 <= i < t.len() implies keep(#[trigger] t[i]) by {
            assert(t[i] == s[i]);
        }
        lemma_filter_keep_all(t, keep);
        assert(keep(s[s.len() - 1]));
        assert(t.push(s.last()) =~= s);
    }
}

/// Filtering with a narrower test is filtering what the wider test kept.
pub proof fn lemma_filter_narrower(
    s: Seq<FileEntry>,
    wide: spec_fn(FileEntry) -> bool,
    narrow: spec_fn(FileEntry) -> bool,
)
    requires
        forall|e: FileEntry| #[trigger] narrow(e) ==> wide(e),
    ensures
        filter_entries(s, narrow) == filter_entries(filter_entries(s, wide), narrow),
    decreases s.len(),
{
    if s.len() > 0 {
        let t = s.drop_last();
        let l = s.last();
        lemma_filter_narrower(t, wide, narrow);
        if wide(l) {
            let u = filter_entries(t, wide).push(l);
            assert(u.drop_last() =~= filter_entries(t, wide));
            assert(u.last() == l);
        }
    }
}

/// Exclusions keep the entries that they do not drop in the order in which they came.
pub proof fn lemma_exclusions_in_order(
    entries: Seq<FileEntry>,
    exclude_raw: Seq<String>,
    exclude_ext_raw: Seq<String>,
)
    ensures
        is_subsequence(
            filter_entries(
                entries,
                |e: FileEntry| !excluded(file_rules(exclude_raw), str_views(exclude_ext_raw), e),
            ),
            entries,
        ),
{
    lemma_filter_subsequence(
        entries,
        |e: FileEntry| !excluded(file_rules(exclude_raw), str_views(exclude_ext_raw), e),
    );
}

/// Without exclusion patterns or excluded extensions every entry is kept.
pub proof fn lemma_no_exclusions(
    entries: Seq<FileEntry>,
    exclude_raw: Seq<String>,
    exclude_ext_raw: Seq<String>,
)
    requires
        exclude_raw.len() == 0,
        exclude_ext_raw.len() == 0,
    ensures
        filter_entries(
            entries,
            |e: FileEntry| !excluded(file_rules(exclude_raw), str_views(exclude_ext_raw), e),
        ) == entries,
{
    let keep = |e: FileEntry| !excluded(file_rules(exclude_raw), str_views(exclude_ext_raw), e);
    assert forall|i: int| 0 <= i < entries.len() implies keep(#[trigger] entries[i]) by {
        assert(file_rules(exclude_raw).len() == 0);
        assert(str_views(exclude_ext_raw).len() == 0);
    }
    lemma_filter_keep_all(entries, keep);
}

/// Every string of `short` occurs in `long`.
pub open spec fn lists_all(short: Seq<String>, long: Seq<String>) -> bool {
    forall|i: int| 0 <= i < short.len() ==> str_views(long).contains(#[trigger] str_views(short)[i])
}

proof fn lemma_prefix_lists_all(a: Seq<String>, b: Seq<String>)
    ensures
        lists_all(a, a + b),
{
    assert forall|i: int| 0 <= i < a.len() implies str_views(a + b).contains(
        #[trigger] str_views(a)[i],
    ) by {
        assert((a + b)[i] == a[i]);
        assert(str_views(a + b)[i] == str_views(a)[i]);
    }
}

/// Adding exclusion patterns or excluded extensions keeps no entry that was dropped
/// before: what the longer lists keep is what they keep of what the shorter lists kept.
pub proof fn lemma_more_exclusions(
    entries: Seq<FileEntry>,
    exclude_raw: Seq<String>,
    exclude_ext_raw: Seq<String>,
    more_raw: Seq<String>,
    more_ext_raw: Seq<String>,
)
    requires
        lists_all(exclude_raw, more_raw),
        lists_all(exclude_ext_raw, more_ext_raw),
    ensures
        ({
            let before = filter_entries(
                entries,
                |e: FileEntry| !excluded(file_rules(exclude_raw), str_views(exclude_ext_raw), e),
            );
            let after = filter_entries(
                entries,
                |e: FileEntry| !excluded(file_rules(more_raw), str_views(more_ext_raw), e),
            );
            &&& after == filter_entries(
                before,
                |e: FileEntry| !excluded(file_rules(more_raw), str_views(more_ext_raw), e),
            )
            &&& is_subsequence(after, before)
        }),
{
    let wide = |e: FileEntry| !excluded(file_rules(exclude_raw), str_views(exclude_ext_raw), e);
    let narrow = |e: FileEntry| !excluded(file_rules(more_raw), str_views(more_ext_raw), e);
    assert forall|e: FileEntry| #[trigger] narrow(e) implies wide(e) by {
        let (name, ext, stem) = name_parts(e.absolute@);
        if exists|i: int|
            0 <= i < str_views(exclude_ext_raw).len() && dotted(
                #[trigger] str_views(exclude_ext_raw)[i],
            ) == ext {
            let i = choose|i: int|
                0 <= i < str_views(exclude_ext_raw).len() && dotted(
                    #[trigger] str_views(exclude_ext_raw)[i],
                ) == ext;
            let j = choose|j: int|
                0 <= j < str_views(more_ext_raw).len() && str_views(more_ext_raw)[j]
                    == str_views(exclude_ext_raw)[i];
            assert(str_views(more_ext_raw)[j] == str_views(exclude_ext_raw)[i]);
        }
        if any_rule_matches(file_rules(exclude_raw), name, e.relative@) {
            let i = choose|i: int|
                0 <= i < file_rules(exclude_raw).len() && rule_matches(
                    #[trigger] file_rules(exclude_raw)[i],
                    name,
                    e.relative@,
                );
            assert(str_views(more_raw).contains(str_views(exclude_raw)[i]));
            let j = choose|j: int|
                0 <= j < str_views(more_raw).len() && str_views(more_raw)[j] == str_views(
                    exclude_raw,
                )[i];
            assert(more_raw[j]@ == exclude_raw[i]@);
            assert(file_rules(more_raw)[j] == file_rules(exclude_raw)[i]);
        }
    }
    lemma_filter_narrower(entries, wide, narrow);
    lemma_filter_subsequence(filter_entries(entries, wide), narrow);
}

/// Appending exclusion patterns or excluded extensions to the lists keeps no entry that
/// the shorter lists dropped, and keeps the rest in order.
pub proof fn lemma_appended_exclusions(
    entries: Seq<FileEntry>,
    exclude_raw: Seq<String>,
    exclude_ext_raw: Seq<String>,
    extra_raw: Seq<String>,
    extra_ext_raw: Seq<String>,
)
    ensures
        ({
            let before = filter_entries(
                entries,
                |e: FileEntry| !excluded(file_rules(exclude_raw), str_views(exclude_ext_raw), e),
            );
            let after = filter_entries(
                entries,
                |e: FileEntry|
                    !excluded(
                        file_rules(exclude_raw + extra_raw),
                        str_views(exclude_ext_raw + extra_ext_raw),
                        e,
                    ),
            );
            &&& after == filter_entries(
                before,
                |e: FileEntry|
                    !excluded(
                        file_rules(exclude_raw + extra_raw),
                        str_views(exclude_ext_raw + extra_ext_raw),
                        e,
                    ),
            )
            &&& is_subsequence(after, before)
        }),
{
    let more_raw = exclude_raw + extra_raw;
    let more_ext_raw = exclude_ext_raw + extra_ext_raw;
    lemma_prefix_lists_all(exclude_raw, extra_raw);
    lemma_prefix_lists_all(exclude_ext_raw, extra_ext_raw);
    lemma_more_exclusions(entries, exclude_raw, exclude_ext_raw, more_raw, more_ext_raw);
}

/// An `--only` list keeps the entries that it selects in the order in which they came,
/// and an empty list keeps every entry.
pub proof fn lemma_only_in_order(entries: Seq<FileEntry>, patterns: Seq<String>)
    ensures
        is_subsequence(
            filter_entries(
                entries,
                |e: FileEntry| only_keeps(str_views(patterns), name_parts(e.absolute@)),
            ),
            entries,
        ),
        patterns.len() == 0 ==> filter_entries(
            entries,
            |e: FileEntry| only_keeps(str_views(patterns), name_parts(e.absolute@)),
        ) == entries,
{
    let keep = |e: FileEntry| only_keeps(str_views(patterns), name_parts(e.absolute@));
    lemma_filter_subsequence(entries, keep);
    if patterns.len() == 0 {
        assert forall|i: int| 0 <= i < entries.len() implies keep(#[trigger] entries[i]) by {
            assert(str_views(patterns).len() == 0);
        }
        lemma_filter_keep_all(entries, keep);
    }
}

/// Applying an `--only` list to what it kept changes nothing.
pub proof fn lemma_only_idempotent(entries: Seq<FileEntry>, patterns: Seq<String>)
    ensures
        ({
            let once = filter_entries(
                entries,
                |e: FileEntry| only_keeps(str_views(patterns), name_parts(e.absolute@)),
            );
            filter_entries(
                once,
                |e: FileEntry| only_keeps(str_views(patterns), name_parts(e.absolute@)),
            ) == once
        }),
{
    let keep = |e: FileEntry| only_keeps(str_views(patterns), name_parts(e.absolute@));
    lemma_filter_narrower(entries, keep, keep);
}

/// A valid glob without `/` or `**` excludes a file by its name alone: a file is dropped
/// exactly when the glob matches its file name, whatever directory holds it.
pub proof fn lemma_name_glob_exclusion(raw: String, e: FileEntry)
    requires
        !is_prefix(literal_prefix(), raw@),
        has_glob_chars_spec(raw@),
        glob_compiles(raw@),
        !is_path_glob(raw@),
    ensures
        excluded(file_rules(seq![raw]), Seq::<Seq<char>>::empty(), e) == glob_matches(
            raw@,
            name_parts(e.absolute@).0,
        ),
{
    let rules = file_rules(seq![raw]);
    assert(rules[0] == (RuleKind::GlobBasename, raw@));
    if any_rule_matches(rules, name_parts(e.absolute@).0, e.relative@) {
        let i = choose|i: int|
            0 <= i < rules.len() && rule_matches(#[trigger] rules[i], name_parts(e.absolute@).0, e.relative@);
        assert(i == 0);
    }
}

/// A valid glob without `/` or `**` prunes a directory of a walk by its name alone: below
/// the root, a directory is entered exactly when it is not hidden from the walk and the
/// glob does not match its name, whatever its path.
pub proof fn lemma_name_glob_prunes_dir(
    raw: String,
    depth: nat,
    name: Seq<char>,
    rel: Seq<char>,
    include_hidden: bool,
)
    requires
        !is_prefix(literal_prefix(), raw@),
        has_glob_chars_spec(raw@),
        glob_compiles(raw@),
        !is_path_glob(raw@),
        depth > 0,
    ensures
        walk_keeps(depth, name, rel, true, include_hidden, dir_rules(seq![raw])) == ((include_hidden
            || !is_prefix(seq!['.'], name)) && !glob_matches(raw@, name)),
{
    let rules = dir_rules(seq![raw]);
    assert(rules[0] == (RuleKind::GlobBasename, raw@));
    if any_rule_matches(rules, name, rel) {
        let i = choose|i: int| 0 <= i < rules.len() && rule_matches(#[trigger] rules[i], name, rel);
        assert(i == 0);
    }
}

} // verus!
