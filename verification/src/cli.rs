use vstd::prelude::*;
use vstd::string::StringExecFns;

use crate::config::{Config, SortingMode};
use crate::files::{apply_exclusions, filter_by_only, str_views, vec_starts_with, FileEntry, dotted};
use crate::order::{sort_tree_order};
use crate::paths::{file_name, join, join_path, name_extension, split_chars, vviews};
use crate::text::{chars_of, copy_str, is_prefix, is_suffix, lemma_split_pieces_without_sep, lemma_split_without_sep, lemma_trim_keeps_out, lemma_trim_of_tidy, lemma_trim_tidy, split, string_of, tidy, trim, trim_vec};

verus! {

/// The style of the header printed above each file.
#[derive(Debug, Clone, Copy, PartialEq, Eq, Structural)]
pub enum HeaderStyle {
    Relative,
    Absolute,
    NoHeader,
}

impl Default for HeaderStyle {
    fn default() -> (r: Self)
        ensures
            r == HeaderStyle::Relative,
    {
        HeaderStyle::Relative
    }
}

impl HeaderStyle {
    /// The style's name.
    pub fn as_str(self) -> (r: &'static str)
        ensures
            self == HeaderStyle::Relative ==> r@ == "relative"@,
            self == HeaderStyle::Absolute ==> r@ == "absolute"@,
            self == HeaderStyle::NoHeader ==> r@ == "none"@,
    {
        match self {
            HeaderStyle::Relative => "relative",
            HeaderStyle::Absolute => "absolute",
            HeaderStyle::NoHeader => "none",
        }
    }
}

/// Recipe subcommands.
#[derive(Debug, Clone)]
pub enum RecipeAction {
    List,
    Run { name: String },
    Add { name: String },
    Delete { name: String },
}

/// Subcommands.
#[derive(Debug, Clone)]
pub enum Commands {
    Recipe { action: Option<RecipeAction> },
}

/// The parsed command line.
#[derive(Debug, Clone)]
pub struct Cli {
    pub paths: Vec<String>,
    pub output: Option<String>,
    pub only: Vec<String>,
    pub exclude: Vec<String>,
    pub exclude_dir: Vec<String>,
    pub exclude_ext: Vec<String>,
    pub level: Option<usize>,
    pub shallow: bool,
    pub header_style: HeaderStyle,
    pub separator: bool,
    pub include_hidden: bool,
    pub literal: bool,
    pub nocopy: bool,
    pub interactive: bool,
    pub line_numbers: bool,
    pub no_padding: bool,
    pub command: Option<Commands>,
}

/// What one run combines and how.
#[derive(Debug, Clone)]
pub struct ClumpParams {
    pub search_paths: Vec<String>,
    pub only_patterns: Vec<String>,
    pub exclude_patterns: Vec<String>,
    pub exclude_dirs: Vec<String>,
    pub exclude_exts: Vec<String>,
    pub max_depth: Option<usize>,
    pub include_hidden: bool,
    pub header_style: String,
    pub separator: bool,
    pub output_file: Option<String>,
    pub nocopy: bool,
    pub selected_files: Option<Vec<String>>,
    pub line_numbers: bool,
    pub padding: bool,
}

/// The non-empty trimmed pieces of `pieces`, in order.
pub open spec fn nonempty_trimmed(pieces: Seq<Seq<char>>) -> Seq<Seq<char>>
    decreases pieces.len(),
{
    if pieces.len() == 0 {
        Seq::empty()
    } else if trim(pieces.last()).len() > 0 {
        nonempty_trimmed(pieces.drop_last()).push(trim(pieces.last()))
    } else {
        nonempty_trimmed(pieces.drop_last())
    }
}

/// The items of comma-separated values: each value split at commas, each piece trimmed,
/// empty pieces dropped.
pub open spec fn csv_items(values: Seq<Seq<char>>) -> Seq<Seq<char>>
    decreases values.len(),
{
    if values.len() == 0 {
        Seq::empty()
    } else {
        csv_items(values.drop_last()) + nonempty_trimmed(split(values.last(), ','))
    }
}

/// Pushes a copy of every element of `src` onto `dst`.
fn append_strings(dst: &mut Vec<String>, src: &Vec<String>)
    ensures
        str_views(final(dst)@) == str_views(old(dst)@) + str_views(src@),
{
    let mut i: usize = 0;
    while i < src.len()
        invariant
            i <= src.len(),
            str_views(dst@) == str_views(old(dst)@) + str_views(src@).take(i as int),
        decreases src.len() - i,
    {
        let ghost prev = dst@;
        dst.push(src[i].clone());
        assert(str_views(dst@) =~= str_views(prev).push(src@[i as int]@));
        assert(str_views(src@).take(i + 1) =~= str_views(src@).take(i as int).push(src@[i as int]@));
        i = i + 1;
    }
    assert(str_views(src@).take(src.len() as int) =~= str_views(src@));
}

/// The comma-separated items of `values` (see `csv_items`).
pub fn flatten_csv(values: &Vec<String>) -> (r: Vec<String>)
    ensures
        str_views(r@) == csv_items(str_views(values@)),
{
    let mut result: Vec<String> = Vec::new();
    let mut i: usize = 0;
    assert(str_views(values@).take(0) =~= Seq::<Seq<char>>::empty());
    while i < values.len()
        invariant
            i <= values.len(),
            str_views(result@) == csv_items(str_views(values@).take(i as int)),
        decreases values.len() - i,
    {
        let v = chars_of(values[i].as_str());
        let parts = split_chars(&v, ',');
        let ghost pv = vviews(parts@);
        let ghost before = str_views(result@);
        let mut j: usize = 0;
        assert(pv.take(0) =~= Seq::<Seq<char>>::empty());
        while j < parts.len()
            invariant
                j <= parts.len(),
                pv == vviews(parts@),
                pv == split(v@, ','),
                str_views(result@) == before + nonempty_trimmed(pv.take(j as int)),
            decreases parts.len() - j,
        {
            let t = trim_vec(&parts[j]);
            proof {
                assert(pv.take(j + 1).drop_last() =~= pv.take(j as int));
                assert(pv.take(j + 1).last() == parts@[j as int]@);
            }
            if t.len() > 0 {
                let ghost prev = result@;
                result.push(string_of(&t));
                assert(str_views(result@) =~= str_views(prev).push(t@));
            }
            j = j + 1;
        }
        assert(pv.take(parts.len() as int) =~= pv);
        proof {
            let vs = str_views(values@);
            assert(vs.take(i + 1).drop_last() =~= vs.take(i as int));
            assert(vs.take(i + 1).last() == v@);
            assert(str_views(result@) =~= csv_items(vs.take(i + 1)));
        }
        i = i + 1;
    }
    assert(str_views(values@).take(values.len() as int) =~= str_views(values@));
    result
}

/// Path arguments that start with `.` and name nothing on disk (`exists[i]` false) are
/// extensions; the others are paths. Both lists keep their order.
pub open spec fn split_ext_spec(paths: Seq<Seq<char>>, exists: Seq<bool>) -> (Seq<Seq<char>>, Seq<Seq<char>>)
    decreases paths.len(),
{
    if paths.len() == 0 {
        (Seq::empty(), Seq::empty())
    } else {
        let (e, p) = split_ext_spec(paths.drop_last(), exists.take(paths.len() - 1));
        if is_prefix(seq!['.'], paths.last()) && !exists[paths.len() - 1] {
            (e.push(paths.last()), p)
        } else {
            (e, p.push(paths.last()))
        }
    }
}

/// Splits path arguments into extensions and paths, given which of them exist on disk.
pub fn split_extensions(paths: &Vec<String>, exists: &Vec<bool>) -> (r: (Vec<String>, Vec<String>))
    requires
        exists@.len() == paths@.len(),
    ensures
        (str_views(r.0@), str_views(r.1@)) == split_ext_spec(str_views(paths@), exists@),
{
    let mut exts: Vec<String> = Vec::new();
    let mut files: Vec<String> = Vec::new();
    let mut i: usize = 0;
    let mut dot: Vec<char> = Vec::new();
    dot.push('.');
    assert(dot@ =~= seq!['.']);
    assert(str_views(paths@).take(0) =~= Seq::<Seq<char>>::empty());
    while i < paths.len()
        invariant
            i <= paths.len(),
            exists@.len() == paths@.len(),
            dot@ == seq!['.'],
            (str_views(exts@), str_views(files@)) == split_ext_spec(
                str_views(paths@).take(i as int),
                exists@.take(i as int),
            ),
        decreases paths.len() - i,
    {
        let pv = chars_of(paths[i].as_str());
        proof {
            let ps = str_views(paths@);
            assert(ps.take(i + 1).drop_last() =~= ps.take(i as int));
            assert(ps.take(i + 1).last() == paths@[i as int]@);
            assert(exists@.take(i + 1).take(i as int) =~= exists@.take(i as int));
            assert(exists@.take(i + 1)[i as int] == exists@[i as int]);
        }
        if vec_starts_with(&pv, &dot) && !exists[i] {
            let ghost prev = exts@;
            exts.push(paths[i].clone());
            assert(str_views(exts@) =~= str_views(prev).push(paths@[i as int]@));
        } else {
            let ghost prev = files@;
            files.push(paths[i].clone());
            assert(str_views(files@) =~= str_views(prev).push(paths@[i as int]@));
        }
        i = i + 1;
    }
    assert(str_views(paths@).take(paths.len() as int) =~= str_views(paths@));
    assert(exists@.take(paths.len() as int) =~= exists@);
    (exts, files)
}

/// `Path::exists`: whether something is on disk at `path`. It depends on the disk, so
/// nothing is stated of it.
#[verifier::external_body]
pub(crate) fn path_exists(path: &str) -> (r: bool) {
    std::path::Path::new(path).exists()
}

/// Splits path arguments into extensions and paths, asking the disk which exist.
pub fn separate_extensions(paths: &Vec<String>) -> (r: (Vec<String>, Vec<String>))
    ensures
        exists|e: Seq<bool>|
            e.len() == paths@.len() && (str_views(r.0@), str_views(r.1@)) == split_ext_spec(
                str_views(paths@),
                e,
            ),
{
    let mut found: Vec<bool> = Vec::new();
    let mut i: usize = 0;
    while i < paths.len()
        invariant
            i <= paths.len(),
            found@.len() == i,
        decreases paths.len() - i,
    {
        found.push(path_exists(paths[i].as_str()));
        i = i + 1;
    }
    split_extensions(paths, &found)
}

/// The parameters that a command line stands for, given which path arguments exist on
/// disk: unless `--literal`, arguments that look like extensions join the `--only` list
/// (with a leading dot); with no paths left, `.` is searched; `--shallow` means depth 0.
pub open spec fn params_match(cli: Cli, exists: Seq<bool>, p: ClumpParams) -> bool {
    let (exts, paths) = if cli.literal {
        (Seq::<Seq<char>>::empty(), str_views(cli.paths@))
    } else {
        split_ext_spec(str_views(cli.paths@), exists)
    };
    &&& str_views(p.search_paths@) == (if paths.len() == 0 {
        seq![seq!['.']]
    } else {
        paths
    })
    &&& str_views(p.only_patterns@) == csv_items(str_views(cli.only@)) + exts.map_values(
        |e: Seq<char>| dotted(e),
    )
    &&& str_views(p.exclude_patterns@) == csv_items(str_views(cli.exclude@))
    &&& str_views(p.exclude_dirs@) == csv_items(str_views(cli.exclude_dir@))
    &&& str_views(p.exclude_exts@) == csv_items(str_views(cli.exclude_ext@))
    &&& p.max_depth == (if cli.shallow {
        Some(0usize)
    } else {
        cli.level
    })
    &&& p.include_hidden == cli.include_hidden
    &&& (cli.header_style == HeaderStyle::Relative ==> p.header_style@ == "relative"@)
    &&& (cli.header_style == HeaderStyle::Absolute ==> p.header_style@ == "absolute"@)
    &&& (cli.header_style == HeaderStyle::NoHeader ==> p.header_style@ == "none"@)
    &&& p.separator == cli.separator
    &&& (match (p.output_file, cli.output) {
        (Some(a), Some(b)) => a@ == b@,
        (None, None) => true,
        _ => false,
    })
    &&& p.nocopy == cli.nocopy
    &&& p.selected_files is None
    &&& p.line_numbers == cli.line_numbers
    &&& p.padding == !cli.no_padding
}

fn dotted_string(e: &String) -> (r: String)
    ensures
        r@ == dotted(e@),
{
    let ev = chars_of(e.as_str());
    let mut dot: Vec<char> = Vec::new();
    dot.push('.');
    assert(dot@ =~= seq!['.']);
    if vec_starts_with(&ev, &dot) {
        e.clone()
    } else {
        let mut d = String::from_str(".");
        proof {
            reveal_strlit(".");
        }
        d.append(e.as_str());
        assert(d@ =~= seq!['.'] + e@);
        d
    }
}

fn copy_strings(v: &Vec<String>) -> (r: Vec<String>)
    ensures
        str_views(r@) == str_views(v@),
{
    let mut out: Vec<String> = Vec::new();
    append_strings(&mut out, v);
    assert(str_views(out@) =~= str_views(v@));
    out
}

impl Cli {
    /// The parameters of this command line, given which path arguments exist on disk
    /// (see `params_match`).
    pub fn to_params_with(&self, exists: &Vec<bool>) -> (r: ClumpParams)
        requires
            exists@.len() == self.paths@.len(),
        ensures
            params_match(*self, exists@, r),
    {
        let (detected, actual) = if !self.literal {
            split_extensions(&self.paths, exists)
        } else {
            (Vec::new(), copy_strings(&self.paths))
        };
        proof {
            if self.literal {
                assert(str_views(detected@) =~= Seq::<Seq<char>>::empty());
            }
        }
        let search_paths = if actual.len() == 0 {
            let mut v: Vec<String> = Vec::new();
            v.push(String::from_str("."));
            proof {
                reveal_strlit(".");
                assert("."@ =~= seq!['.']);
                assert(v@[0]@ == seq!['.']);
                assert(str_views(v@) =~= seq![seq!['.']]);
            }
            v
        } else {
            actual
        };
        let mut only_patterns = flatten_csv(&self.only);
        let ghost base = str_views(only_patterns@);
        let ghost dv = str_views(detected@);
        let mut k: usize = 0;
        while k < detected.len()
            invariant
                k <= detected.len(),
                dv == str_views(detected@),
                str_views(only_patterns@) == base + dv.take(k as int).map_values(
                    |e: Seq<char>| dotted(e),
                ),
            decreases detected.len() - k,
        {
            let ghost prev = only_patterns@;
            let d = dotted_string(&detected[k]);
            only_patterns.push(d);
            assert(str_views(only_patterns@) =~= str_views(prev).push(dotted(dv[k as int])));
            assert(dv.take(k + 1).map_values(|e: Seq<char>| dotted(e)) =~= dv.take(
                k as int,
            ).map_values(|e: Seq<char>| dotted(e)).push(dotted(dv[k as int])));
            k = k + 1;
        }
        assert(dv.take(detected.len() as int) =~= dv);
        let max_depth = if self.shallow {
            Some(0)
        } else {
            self.level
        };
        let output_file = match &self.output {
            Some(o) => Some(o.clone()),
            None => None,
        };
        ClumpParams {
            search_paths,
            only_patterns,
            exclude_patterns: flatten_csv(&self.exclude),
            exclude_dirs: flatten_csv(&self.exclude_dir),
            exclude_exts: flatten_csv(&self.exclude_ext),
            max_depth,
            include_hidden: self.include_hidden,
            header_style: String::from_str(self.header_style.as_str()),
            separator: self.separator,
            output_file,
            nocopy: self.nocopy,
            selected_files: None,
            line_numbers: self.line_numbers,
            padding: !self.no_padding,
        }
    }

    /// The parameters of this command line, asking the disk which path arguments exist.
    pub fn to_params(&self) -> (r: ClumpParams)
        ensures
            exists|e: Seq<bool>| e.len() == self.paths@.len() && params_match(*self, e, r),
    {
        let mut found: Vec<bool> = Vec::new();
        let mut i: usize = 0;
        while i < self.paths.len()
            invariant
                i <= self.paths.len(),
                found@.len() == i,
            decreases self.paths.len() - i,
        {
            found.push(path_exists(self.paths[i].as_str()));
            i = i + 1;
        }
        self.to_params_with(&found)
    }

    /// Whether the command line holds nothing at all: no paths, no subcommand, and every
    /// flag at its default.
    pub open spec fn is_bare(&self) -> bool {
        &&& self.paths@.len() == 0
        &&& self.command is None
        &&& self.output is None
        &&& self.only@.len() == 0
        &&& self.exclude@.len() == 0
        &&& self.exclude_dir@.len() == 0
        &&& self.exclude_ext@.len() == 0
        &&& self.level is None
        &&& !self.shallow
        &&& self.header_style == HeaderStyle::Relative
        &&& !self.separator
        &&& !self.include_hidden
        &&& !self.literal
        &&& !self.nocopy
        &&& !self.interactive
        &&& !self.line_numbers
        &&& !self.no_padding
    }
}

/// What the program does for a command line.
#[derive(Debug)]
pub enum Dispatch {
    /// Open the interactive interface on its main menu.
    Tui,
    /// Open the interactive interface on the recipe list.
    TuiRecipes,
    /// Combine files with these parameters, asking for extra exclusions first when
    /// `interactive`.
    Clump { params: ClumpParams, interactive: bool },
    /// List the saved recipes.
    RecipeList,
    /// Run the named recipe.
    RecipeRun(String),
    /// Add an empty recipe with this name.
    RecipeAdd(String),
    /// Delete the named recipe.
    RecipeDelete(String),
}

/// Decides what a command line asks for: a bare command line opens the interface; a
/// command line without subcommand combines files; `recipe` alone opens the interface
/// on the recipe list;
/// the recipe subcommands list, run, add or delete recipes.
pub fn dispatch(cli: &Cli) -> (r: Dispatch)
    ensures
        cli.is_bare() ==> r is Tui,
        !cli.is_bare() && cli.command is None ==> (r matches Dispatch::Clump { params, interactive }
            && interactive == cli.interactive && exists|e: Seq<bool>|
            e.len() == cli.paths@.len() && params_match(*cli, e, params)),
        !cli.is_bare() ==> (cli.command matches Some(Commands::Recipe { action: None })
            ==> r is TuiRecipes),
        !cli.is_bare() ==> (cli.command matches Some(Commands::Recipe { action: Some(RecipeAction::List) })
            ==> r is RecipeList),
        !cli.is_bare() ==> (cli.command matches Some(Commands::Recipe { action: Some(RecipeAction::Run { name }) })
            ==> r matches Dispatch::RecipeRun(n) && n@ == name@),
        !cli.is_bare() ==> (cli.command matches Some(Commands::Recipe { action: Some(RecipeAction::Add { name }) })
            ==> r matches Dispatch::RecipeAdd(n) && n@ == name@),
        !cli.is_bare() ==> (cli.command matches Some(Commands::Recipe { action: Some(RecipeAction::Delete { name }) })
            ==> r matches Dispatch::RecipeDelete(n) && n@ == name@),
{
    let bare = cli.paths.len() == 0 && cli.command.is_none() && cli.output.is_none()
        && cli.only.len() == 0 && cli.exclude.len() == 0 && cli.exclude_dir.len() == 0
        && cli.exclude_ext.len() == 0 && cli.level.is_none() && !cli.shallow && (match cli.header_style {
        HeaderStyle::Relative => true,
        _ => false,
    }) && !cli.separator && !cli.include_hidden && !cli.literal && !cli.nocopy
        && !cli.interactive && !cli.line_numbers && !cli.no_padding;
    if bare {
        return Dispatch::Tui;
    }
    match &cli.command {
        None => Dispatch::Clump { params: cli.to_params(), interactive: cli.interactive },
        Some(Commands::Recipe { action }) => match action {
            None => Dispatch::TuiRecipes,
            Some(RecipeAction::List) => Dispatch::RecipeList,
            Some(RecipeAction::Run { name }) => Dispatch::RecipeRun(name.clone()),
            Some(RecipeAction::Add { name }) => Dispatch::RecipeAdd(name.clone()),
            Some(RecipeAction::Delete { name }) => Dispatch::RecipeDelete(name.clone()),
        },
    }
}

/// More files than this need a confirmation before they are combined.
pub const SAFETY_THRESHOLD: usize = 30;

/// What a run combines once the configuration is merged in: the configured exclusions
/// followed by the run's own, the run's depth limit or else the configured one, hidden
/// files when either asks for them, and separators when either asks for them.
#[derive(Debug)]
pub struct ClumpPlan {
    pub exclude_patterns: Vec<String>,
    pub exclude_dirs: Vec<String>,
    pub exclude_exts: Vec<String>,
    pub max_depth: Option<usize>,
    pub include_hidden: bool,
    pub separators: bool,
}

/// Merges a run's parameters with the configuration (see `ClumpPlan`).
pub fn plan_clump(params: &ClumpParams, cfg: &Config) -> (r: ClumpPlan)
    ensures
        str_views(r.exclude_patterns@) == str_views(cfg.files.exclude_patterns@) + csv_items(
            str_views(params.exclude_patterns@),
        ),
        str_views(r.exclude_dirs@) == str_views(cfg.files.exclude_dirs@) + csv_items(
            str_views(params.exclude_dirs@),
        ),
        str_views(r.exclude_exts@) == str_views(cfg.extensions.exclude@) + csv_items(
            str_views(params.exclude_exts@),
        ),
        r.max_depth == (match params.max_depth {
            Some(d) => Some(d),
            None => cfg.files.max_depth,
        }),
        r.include_hidden == (cfg.files.include_hidden || params.include_hidden),
        r.separators == (params.separator || cfg.output.separators),
{
    let mut exclude_patterns = copy_strings(&cfg.files.exclude_patterns);
    let extra = flatten_csv(&params.exclude_patterns);
    append_strings(&mut exclude_patterns, &extra);
    let mut exclude_dirs = copy_strings(&cfg.files.exclude_dirs);
    let extra = flatten_csv(&params.exclude_dirs);
    append_strings(&mut exclude_dirs, &extra);
    let mut exclude_exts = copy_strings(&cfg.extensions.exclude);
    let extra = flatten_csv(&params.exclude_exts);
    append_strings(&mut exclude_exts, &extra);
    let max_depth = match params.max_depth {
        Some(d) => Some(d),
        None => cfg.files.max_depth,
    };
    ClumpPlan {
        exclude_patterns,
        exclude_dirs,
        exclude_exts,
        max_depth,
        include_hidden: cfg.files.include_hidden || params.include_hidden,
        separators: params.separator || cfg.output.separators,
    }
}

/// The collected entries that a run keeps, in output order: those the `--only` list
/// selects, without those the exclusions drop, sorted in the configured order.
pub fn select_entries(
    all: &Vec<FileEntry>,
    only_patterns: &Vec<String>,
    plan: &ClumpPlan,
    sorting: &SortingMode,
) -> (r: Vec<FileEntry>)
    ensures
        r@ == crate::order::sorted_entries(
            *sorting,
            crate::files::filter_entries(
                crate::files::filter_entries(
                    all@,
                    |e: FileEntry|
                        crate::files::only_keeps(
                            str_views(only_patterns@),
                            crate::paths::name_parts(e.absolute@),
                        ),
                ),
                |e: FileEntry|
                    !crate::files::excluded(
                        crate::files::file_rules(plan.exclude_patterns@),
                        str_views(plan.exclude_exts@),
                        e,
                    ),
            ),
        ),
{
    let kept = filter_by_only(all, only_patterns);
    let mut kept = apply_exclusions(&kept, &plan.exclude_patterns, &plan.exclude_exts);
    sort_tree_order(&mut kept, sorting);
    kept
}

/// Whether a run must ask before combining `count` files: only when it was not told to
/// skip the check, more than `SAFETY_THRESHOLD` files are about to be combined, and
/// there is a terminal to ask on.
pub fn needs_confirmation(count: usize, skip_safety: bool, on_terminal: bool) -> (r: bool)
    ensures
        r == (!skip_safety && count > SAFETY_THRESHOLD && on_terminal),
{
    !skip_safety && count > SAFETY_THRESHOLD && on_terminal
}

/// Where output asked to go to `path` is written: `path` itself when it ends with
/// `.txt` or has an extension, otherwise `clump_<timestamp>.txt` inside it.
pub open spec fn output_path_for(path: Seq<char>, timestamp: Seq<char>) -> Seq<char> {
    if is_suffix(".txt"@, path) || (match file_name(path) {
        Some(n) => name_extension(n) is Some,
        None => false,
    }) {
        path
    } else {
        join(path, "clump_"@ + timestamp + ".txt"@)
    }
}

/// The file that output asked to go to `path` is written to (see `output_path_for`).
pub fn output_file_path(path: &str, timestamp: &str) -> (r: String)
    ensures
        r@ == output_path_for(path@, timestamp@),
{
    let pv = chars_of(path);
    let suffix = chars_of(".txt");
    proof {
        reveal_strlit(".txt");
    }
    let ends_txt = if pv.len() >= 4 {
        let mut tail: Vec<char> = Vec::new();
        let mut i = pv.len() - 4;
        while i < pv.len()
            invariant
                pv.len() >= 4,
                pv.len() - 4 <= i <= pv.len(),
                tail@ == pv@.subrange(pv.len() - 4, i as int),
            decreases pv.len() - i,
        {
            tail.push(pv[i]);
            assert(pv@.subrange(pv.len() - 4, i + 1) =~= pv@.subrange(pv.len() - 4, i as int).push(
                pv@[i as int],
            ));
            i = i + 1;
        }
        assert(tail@ =~= pv@.skip(pv.len() - 4));
        crate::files::vec_eq(&tail, &suffix)
    } else {
        false
    };
    let has_ext = match crate::paths::file_name_of(&pv) {
        Some(n) => has_extension(&n),
        None => false,
    };
    if ends_txt || has_ext {
        return copy_str(path);
    }
    let mut fname = String::from_str("clump_");
    fname.append(timestamp);
    fname.append(".txt");
    proof {
        assert(fname@ =~= "clump_"@ + timestamp@ + ".txt"@);
    }
    join_path(path, fname.as_str())
}

fn has_extension(n: &Vec<char>) -> (r: bool)
    ensures
        r == (name_extension(n@) is Some),
{
    let mut last: Option<usize> = None;
    let mut i: usize = 0;
    while i < n.len()
        invariant
            i <= n.len(),
            match last {
                Some(k) => k < i && crate::paths::last_index_of(n@.take(i as int), '.') == k,
                None => crate::paths::last_index_of(n@.take(i as int), '.') == -1,
            },
        decreases n.len() - i,
    {
        assert(n@.take(i + 1).drop_last() =~= n@.take(i as int));
        if n[i] == '.' {
            last = Some(i);
        }
        i = i + 1;
    }
    assert(n@.take(n.len() as int) =~= n@);
    let is_parent = n.len() == 2 && n[0] == '.' && n[1] == '.';
    proof {
        if is_parent {
            assert(n@ =~= seq!['.', '.']);
        }
        if n@ == seq!['.', '.'] {
            assert(n@[0] == '.' && n@[1] == '.');
        }
    }
    match last {
        Some(k) => !is_parent && k > 0,
        None => false,
    }
}

/// Every item of comma-separated values is tidy: not empty, with no white space at
/// either end.
pub proof fn lemma_csv_items_tidy(values: Seq<Seq<char>>)
    ensures
        forall|i: int| 0 <= i < csv_items(values).len() ==> tidy(#[trigger] csv_items(values)[i]),
    decreases values.len(),
{
    if values.len() > 0 {
        lemma_csv_items_tidy(values.drop_last());
        lemma_nonempty_trimmed_tidy(split(values.last(), ','));
        let a = csv_items(values.drop_last());
        let b = nonempty_trimmed(split(values.last(), ','));
        assert forall|i: int| 0 <= i < csv_items(values).len() implies tidy(#[trigger] csv_items(values)[i]) by {
            if i < a.len() {
                assert(csv_items(values)[i] == a[i]);
            } else {
                assert(csv_items(values)[i] == b[i - a.len()]);
            }
        }
    }
}

/// Splitting values one after the other gives the items of each, one after the other.
pub proof fn lemma_csv_items_concat(x: Seq<Seq<char>>, y: Seq<Seq<char>>)
    ensures
        csv_items(x + y) == csv_items(x) + csv_items(y),
    decreases y.len(),
{
    if y.len() == 0 {
        assert(x + y =~= x);
        assert(csv_items(x) + csv_items(y) =~= csv_items(x));
    } else {
        lemma_csv_items_concat(x, y.drop_last());
        assert((x + y).drop_last() =~= x + y.drop_last());
        assert((x + y).last() == y.last());
        let b = nonempty_trimmed(split(y.last(), ','));
        assert(csv_items(x) + csv_items(y.drop_last()) + b =~= csv_items(x) + (csv_items(
            y.drop_last(),
        ) + b));
    }
}

/// No item of comma-separated values holds a comma.
pub proof fn lemma_csv_items_comma_free(values: Seq<Seq<char>>)
    ensures
        forall|i: int|
            0 <= i < csv_items(values).len() ==> !(#[trigger] csv_items(values)[i]).contains(','),
    decreases values.len(),
{
    if values.len() > 0 {
        lemma_csv_items_comma_free(values.drop_last());
        lemma_split_pieces_without_sep(values.last(), ',');
        lemma_nonempty_trimmed_comma_free(split(values.last(), ','));
        let a = csv_items(values.drop_last());
        let b = nonempty_trimmed(split(values.last(), ','));
        assert forall|i: int| 0 <= i < csv_items(values).len() implies !(#[trigger] csv_items(
            values,
        )[i]).contains(',') by {
            if i < a.len() {
                assert(csv_items(values)[i] == a[i]);
            } else {
                assert(csv_items(values)[i] == b[i - a.len()]);
            }
        }
    }
}

proof fn lemma_nonempty_trimmed_comma_free(pieces: Seq<Seq<char>>)
    requires
        forall|i: int| 0 <= i < pieces.len() ==> !(#[trigger] pieces[i]).contains(','),
    ensures
        forall|i: int|
            0 <= i < nonempty_trimmed(pieces).len() ==> !(#[trigger] nonempty_trimmed(
                pieces,
            )[i]).contains(','),
    decreases pieces.len(),
{
    if pieces.len() > 0 {
        let d = pieces.drop_last();
        assert forall|i: int| 0 <= i < d.len() implies !(#[trigger] d[i]).contains(',') by {
            assert(d[i] == pieces[i]);
        }
        lemma_nonempty_trimmed_comma_free(d);
        assert(!pieces[pieces.len() - 1].contains(','));
        lemma_trim_keeps_out(pieces.last(), ',');
        let w = nonempty_trimmed(d);
        assert forall|i: int| 0 <= i < nonempty_trimmed(pieces).len() implies !(
        #[trigger] nonempty_trimmed(pieces)[i]).contains(',') by {
            if i < w.len() {
                assert(nonempty_trimmed(pieces)[i] == w[i]);
            }
        }
    }
}

/// Splitting the items of comma-separated values once more changes nothing.
pub proof fn lemma_csv_items_idempotent(values: Seq<Seq<char>>)
    ensures
        csv_items(csv_items(values)) == csv_items(values),
{
    lemma_csv_items_tidy(values);
    lemma_csv_items_comma_free(values);
    lemma_csv_items_of_items(csv_items(values));
}

proof fn lemma_csv_items_of_items(v: Seq<Seq<char>>)
    requires
        forall|i: int| 0 <= i < v.len() ==> tidy(#[trigger] v[i]),
        forall|i: int| 0 <= i < v.len() ==> !(#[trigger] v[i]).contains(','),
    ensures
        csv_items(v) == v,
    decreases v.len(),
{
    if v.len() > 0 {
        let d = v.drop_last();
        assert forall|i: int| 0 <= i < d.len() implies tidy(#[trigger] d[i]) && !d[i].contains(
            ',',
        ) by {
            assert(d[i] == v[i]);
        }
        lemma_csv_items_of_items(d);
        let w = v.last();
        assert(tidy(v[v.len() - 1]) && !v[v.len() - 1].contains(','));
        lemma_split_without_sep(w, ',');
        lemma_trim_of_tidy(w);
        let one = seq![w];
        assert(one.drop_last() =~= Seq::<Seq<char>>::empty());
        assert(one.last() == w);
        assert(nonempty_trimmed(one.drop_last()) == Seq::<Seq<char>>::empty());
        assert(trim(one.last()).len() > 0);
        assert(nonempty_trimmed(one) =~= one);
        assert(d + seq![w] =~= v);
    }
}

proof fn lemma_nonempty_trimmed_tidy(pieces: Seq<Seq<char>>)
    ensures
        forall|i: int| 0 <= i < nonempty_trimmed(pieces).len() ==> tidy(#[trigger] nonempty_trimmed(pieces)[i]),
    decreases pieces.len(),
{
    if pieces.len() > 0 {
        lemma_nonempty_trimmed_tidy(pieces.drop_last());
        lemma_trim_tidy(pieces.last());
        let w = nonempty_trimmed(pieces.drop_last());
        assert forall|i: int| 0 <= i < nonempty_trimmed(pieces).len() implies tidy(#[trigger] nonempty_trimmed(pieces)[i]) by {
            if i < w.len() {
                assert(nonempty_trimmed(pieces)[i] == w[i]);
            }
        }
    }
}

} // verus!
