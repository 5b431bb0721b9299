use vstd::prelude::*;
use vstd::string::StringExecFns;

use crate::paths::{config_dir, join, join_path};

verus! {

/// How collected files are ordered.
#[derive(Debug, Clone, Copy, PartialEq, Eq, Structural)]
pub enum SortingMode {
    FilesFirst,
    DirsFirst,
    Flat,
}

impl Default for SortingMode {
    fn default() -> (r: Self)
        ensures
            r == SortingMode::FilesFirst,
    {
        SortingMode::FilesFirst
    }
}

impl SortingMode {
    /// The mode that follows this one in the configuration screen's cycle:
    /// files first, then directories first, then flat, then files first again.
    pub fn next(self) -> (r: Self)
        ensures
            self == SortingMode::FilesFirst ==> r == SortingMode::DirsFirst,
            self == SortingMode::DirsFirst ==> r == SortingMode::Flat,
            self == SortingMode::Flat ==> r == SortingMode::FilesFirst,
    {
        match self {
            SortingMode::FilesFirst => SortingMode::DirsFirst,
            SortingMode::DirsFirst => SortingMode::Flat,
            _ => SortingMode::FilesFirst,
        }
    }
}

/// Alignment of the banner header.
#[derive(Debug, Clone, Copy, PartialEq, Eq, Structural)]
pub enum HeaderAlignment {
    Left,
    Center,
    Right,
}

impl Default for HeaderAlignment {
    fn default() -> (r: Self)
        ensures
            r == HeaderAlignment::Center,
    {
        HeaderAlignment::Center
    }
}

/// The whole configuration.
#[derive(Debug, Clone)]
pub struct Config {
    pub sorting: SortingMode,
    pub files: FilesConfig,
    pub extensions: ExtensionsConfig,
    pub output: OutputConfig,
    pub preview: PreviewConfig,
    pub ui: UiConfig,
}

/// Which files are collected.
#[derive(Debug, Clone)]
pub struct FilesConfig {
    pub include_hidden: bool,
    pub max_depth: Option<usize>,
    pub exclude_dirs: Vec<String>,
    pub exclude_patterns: Vec<String>,
}

/// Extensions to include or exclude.
#[derive(Debug, Clone)]
pub struct ExtensionsConfig {
    pub included: Vec<String>,
    pub exclude: Vec<String>,
}

/// How the combined output is laid out.
#[derive(Debug, Clone)]
pub struct OutputConfig {
    pub header_style: String,
    pub separators: bool,
    pub separator_char: String,
    pub separator_placement: String,
}

/// Preview settings.
#[derive(Debug, Clone)]
pub struct PreviewConfig {
    pub max_lines: usize,
    pub binary_warning: bool,
}

/// User-interface settings.
#[derive(Debug, Clone)]
pub struct UiConfig {
    pub header_alignment: HeaderAlignment,
}

impl Default for ExtensionsConfig {
    fn default() -> (r: Self)
        ensures
            r.included@.len() == 0,
            r.exclude@.len() == 0,
    {
        ExtensionsConfig { included: Vec::new(), exclude: Vec::new() }
    }
}

impl Default for PreviewConfig {
    fn default() -> (r: Self)
        ensures
            r.max_lines == 0,
            !r.binary_warning,
    {
        PreviewConfig { max_lines: 0, binary_warning: false }
    }
}

impl Default for UiConfig {
    fn default() -> (r: Self)
        ensures
            r.header_alignment == HeaderAlignment::Center,
    {
        UiConfig { header_alignment: HeaderAlignment::default() }
    }
}

/// Default header style: `"relative"`.
pub fn default_str() -> (r: String)
    ensures
        r@ == "relative"@,
{
    String::from_str("relative")
}

/// Default separator character: `"-"`.
pub fn default_char() -> (r: String)
    ensures
        r@ == "-"@,
{
    String::from_str("-")
}

/// Default separator placement: `"both"`.
pub fn default_placement() -> (r: String)
    ensures
        r@ == "both"@,
{
    String::from_str("both")
}

/// Default preview length: 10000 lines.
pub fn default_usize() -> (r: usize)
    ensures
        r == 10000,
{
    10000
}

/// Default file settings: hidden files skipped, no depth limit, `node_modules` and
/// `.git` skipped, no exclusion patterns.
pub fn default_files_config() -> (r: FilesConfig)
    ensures
        !r.include_hidden,
        r.max_depth is None,
        r.exclude_dirs@.len() == 2,
        r.exclude_dirs@[0]@ == "node_modules"@,
        r.exclude_dirs@[1]@ == ".git"@,
        r.exclude_patterns@.len() == 0,
{
    let mut dirs: Vec<String> = Vec::new();
    dirs.push(String::from_str("node_modules"));
    dirs.push(String::from_str(".git"));
    FilesConfig {
        include_hidden: false,
        max_depth: None,
        exclude_dirs: dirs,
        exclude_patterns: Vec::new(),
    }
}

/// Default output settings: relative headers, separators on, `-` drawn both above and
/// below each header.
pub fn default_output_config() -> (r: OutputConfig)
    ensures
        r.header_style@ == "relative"@,
        r.separators,
        r.separator_char@ == "-"@,
        r.separator_placement@ == "both"@,
{
    OutputConfig {
        header_style: default_str(),
        separators: true,
        separator_char: default_char(),
        separator_placement: default_placement(),
    }
}

impl Default for Config {
    fn default() -> (r: Self)
        ensures
            r.sorting == SortingMode::FilesFirst,
            !r.files.include_hidden,
            r.files.max_depth is None,
            r.files.exclude_dirs@.len() == 2,
            r.files.exclude_dirs@[0]@ == "node_modules"@,
            r.files.exclude_dirs@[1]@ == ".git"@,
            r.files.exclude_patterns@.len() == 0,
            r.extensions.included@.len() == 0,
            r.extensions.exclude@.len() == 0,
            r.output.header_style@ == "relative"@,
            r.output.separators,
            r.output.separator_char@ == "-"@,
            r.output.separator_placement@ == "both"@,
            r.preview.max_lines == 0,
            !r.preview.binary_warning,
            r.ui.header_alignment == HeaderAlignment::Center,
    {
        Config {
            sorting: SortingMode::default(),
            files: default_files_config(),
            extensions: ExtensionsConfig::default(),
            output: default_output_config(),
            preview: PreviewConfig::default(),
            ui: UiConfig::default(),
        }
    }
}

/// The depth limit that a stored number stands for: none for zero or less.
pub open spec fn depth_read(v: int) -> Option<usize> {
    if v <= 0 {
        None
    } else {
        Some(v as usize)
    }
}

/// A depth limit read from an unsigned number: zero means no limit.
pub fn max_depth_from_u64(v: u64) -> (r: Option<usize>)
    ensures
        r == depth_read(v as int),
{
    if v == 0 {
        None
    } else {
        Some(v as usize)
    }
}

/// A depth limit read from a signed number: zero or less means no limit.
pub fn max_depth_from_i64(v: i64) -> (r: Option<usize>)
    ensures
        r == depth_read(v as int),
{
    if v <= 0 {
        None
    } else {
        Some(v as usize)
    }
}

/// A depth limit written as its number reads back as itself, except a limit of zero,
/// which reads back as no limit.
pub proof fn lemma_depth_round_trip(d: usize)
    ensures
        depth_read(d as int) == (if d == 0 {
            None
        } else {
            Some(d)
        }),
{
}

/// Where the configuration file is, given the configuration directory: `clump/config.ron`
/// under it, or under `.` when there is none.
pub open spec fn config_path_for(dir: Option<Seq<char>>) -> Seq<char> {
    join(
        match dir {
            Some(d) => d,
            None => seq!['.'],
        },
        "clump/config.ron"@,
    )
}

/// The configuration file's path under the given configuration directory.
pub fn config_path_in(dir: Option<String>) -> (r: String)
    ensures
        r@ == config_path_for(
            match dir {
                Some(d) => Some(d@),
                None => None,
            },
        ),
{
    proof {
        reveal_strlit(".");
    }
    match dir {
        Some(d) => join_path(d.as_str(), "clump/config.ron"),
        None => join_path(".", "clump/config.ron"),
    }
}

/// The configuration file's path under the user's configuration directory.
pub fn config_path() -> (r: String)
    ensures
        exists|d: Option<Seq<char>>| r@ == config_path_for(d),
{
    config_path_in(config_dir())
}

} // verus!
