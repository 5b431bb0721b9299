use clump::cli::{
    dispatch, flatten_csv, needs_confirmation, output_file_path, plan_clump, select_entries,
    split_extensions, Cli, ClumpParams, Commands, Dispatch, HeaderStyle, RecipeAction,
    SAFETY_THRESHOLD,
};
use clump::config::{Config, SortingMode};
use clump::files::FileEntry;

fn s(v: &[&str]) -> Vec<String> {
    v.iter().map(|x| x.to_string()).collect()
}

fn bare_cli() -> Cli {
    Cli {
        paths: vec![],
        output: None,
        only: vec![],
        exclude: vec![],
        exclude_dir: vec![],
        exclude_ext: vec![],
        level: None,
        shallow: false,
        header_style: HeaderStyle::Relative,
        separator: false,
        include_hidden: false,
        literal: false,
        nocopy: false,
        interactive: false,
        line_numbers: false,
        no_padding: false,
        command: None,
    }
}

fn params() -> ClumpParams {
    ClumpParams {
        search_paths: s(&["."]),
        only_patterns: vec![],
        exclude_patterns: vec![],
        exclude_dirs: vec![],
        exclude_exts: vec![],
        max_depth: None,
        include_hidden: false,
        header_style: "relative".to_string(),
        separator: false,
        output_file: None,
        nocopy: false,
        selected_files: None,
        line_numbers: false,
        padding: true,
    }
}

fn entry(abs: &str, rel: &str) -> FileEntry {
    FileEntry { absolute: abs.to_string(), relative: rel.to_string() }
}

#[test]
fn header_style_names() {
    assert_eq!(HeaderStyle::Relative.as_str(), "relative");
    assert_eq!(HeaderStyle::Absolute.as_str(), "absolute");
    assert_eq!(HeaderStyle::NoHeader.as_str(), "none");
}

#[test]
fn flatten_csv_trims_and_drops_empty_items() {
    assert_eq!(flatten_csv(&s(&[" a, b ,,c", "d", " , "])), s(&["a", "b", "c", "d"]));
    assert!(flatten_csv(&vec![]).is_empty());
}

#[test]
fn split_extensions_uses_existence() {
    let (exts, paths) = split_extensions(&s(&[".rs", "src", ".git", "x.md"]), &vec![false, true, true, false]);
    assert_eq!(exts, s(&[".rs"]));
    assert_eq!(paths, s(&["src", ".git", "x.md"]));
}

#[test]
fn to_params_with_detects_extensions() {
    let mut cli = bare_cli();
    cli.paths = s(&[".rs", "toml"]);
    cli.only = s(&["Makefile, .md"]);
    cli.exclude = s(&["target,*.log"]);
    cli.shallow = true;
    cli.no_padding = true;
    cli.output = Some("out.txt".to_string());
    let p = cli.to_params_with(&vec![false, false]);
    assert_eq!(p.search_paths, s(&["toml"]));
    assert_eq!(p.only_patterns, s(&["Makefile", ".md", ".rs"]));
    assert_eq!(p.exclude_patterns, s(&["target", "*.log"]));
    assert_eq!(p.max_depth, Some(0));
    assert_eq!(p.header_style, "relative");
    assert_eq!(p.output_file, Some("out.txt".to_string()));
    assert!(!p.padding);
    assert!(p.selected_files.is_none());
}

#[test]
fn to_params_with_defaults_to_current_dir() {
    let mut cli = bare_cli();
    cli.paths = s(&[".py"]);
    cli.level = Some(3);
    cli.header_style = HeaderStyle::NoHeader;
    let p = cli.to_params_with(&vec![false]);
    assert_eq!(p.search_paths, s(&["."]));
    assert_eq!(p.only_patterns, s(&[".py"]));
    assert_eq!(p.max_depth, Some(3));
    assert_eq!(p.header_style, "none");
}

#[test]
fn to_params_with_literal_keeps_paths() {
    let mut cli = bare_cli();
    cli.paths = s(&[".rs"]);
    cli.literal = true;
    let p = cli.to_params_with(&vec![false]);
    assert_eq!(p.search_paths, s(&[".rs"]));
    assert!(p.only_patterns.is_empty());
}

#[test]
fn to_params_asks_the_disk() {
    // `src` exists in the crate's directory, `.nonexistent-ext` does not.
    let mut cli = bare_cli();
    cli.paths = s(&["src", ".nonexistent-ext"]);
    let p = cli.to_params();
    assert_eq!(p.search_paths, s(&["src"]));
    assert_eq!(p.only_patterns, s(&[".nonexistent-ext"]));
}

#[test]
fn dispatch_cases() {
    assert!(matches!(dispatch(&bare_cli()), Dispatch::Tui));
    let mut cli = bare_cli();
    cli.line_numbers = true;
    cli.interactive = true;
    match dispatch(&cli) {
        Dispatch::Clump { params, interactive } => {
            assert!(interactive);
            assert!(params.line_numbers);
            assert_eq!(params.search_paths, s(&["."]));
        }
        _ => panic!("expected a run"),
    }
    let mut cli = bare_cli();
    cli.command = Some(Commands::Recipe { action: None });
    cli.nocopy = true;
    assert!(matches!(dispatch(&cli), Dispatch::TuiRecipes));
    cli.command = Some(Commands::Recipe { action: Some(RecipeAction::List) });
    assert!(matches!(dispatch(&cli), Dispatch::RecipeList));
    cli.command = Some(Commands::Recipe { action: Some(RecipeAction::Run { name: "x".to_string() }) });
    assert!(matches!(dispatch(&cli), Dispatch::RecipeRun(n) if n == "x"));
    cli.command = Some(Commands::Recipe { action: Some(RecipeAction::Add { name: "y".to_string() }) });
    assert!(matches!(dispatch(&cli), Dispatch::RecipeAdd(n) if n == "y"));
    cli.command = Some(Commands::Recipe { action: Some(RecipeAction::Delete { name: "z".to_string() }) });
    assert!(matches!(dispatch(&cli), Dispatch::RecipeDelete(n) if n == "z"));
}

#[test]
fn plan_merges_configuration() {
    let mut cfg = Config::default();
    cfg.files.exclude_patterns = s(&["*.lock"]);
    cfg.files.exclude_dirs = s(&["node_modules"]);
    cfg.files.max_depth = Some(4);
    cfg.extensions.included = vec![];
    cfg.extensions.exclude = s(&[".bin"]);
    cfg.output.separators = true;
    let mut p = params();
    p.exclude_patterns = s(&["a, b"]);
    p.exclude_dirs = s(&["dist"]);
    p.exclude_exts = s(&["png"]);
    p.include_hidden = true;
    let plan = plan_clump(&p, &cfg);
    assert_eq!(plan.exclude_patterns, s(&["*.lock", "a", "b"]));
    assert_eq!(plan.exclude_dirs, s(&["node_modules", "dist"]));
    assert_eq!(plan.exclude_exts, s(&[".bin", "png"]));
    assert_eq!(plan.max_depth, Some(4));
    assert!(plan.include_hidden);
    assert!(plan.separators);
    p.max_depth = Some(1);
    assert_eq!(plan_clump(&p, &cfg).max_depth, Some(1));
}

#[test]
fn select_entries_filters_excludes_and_sorts() {
    let all = vec![
        entry("/r/src/main.rs", "src/main.rs"),
        entry("/r/README.md", "README.md"),
        entry("/r/app.log", "app.log"),
        entry("/r/build.rs", "build.rs"),
        entry("/r/target/x.rs", "target/x.rs"),
    ];
    let mut cfg = Config::default();
    cfg.files.exclude_patterns = vec![];
    cfg.extensions.exclude = vec![];
    let mut p = params();
    p.exclude_patterns = s(&["target"]);
    let plan = plan_clump(&p, &cfg);
    let r = select_entries(&all, &s(&[".rs", ".md"]), &plan, &SortingMode::FilesFirst);
    let rels: Vec<&str> = r.iter().map(|e| e.relative.as_str()).collect();
    assert_eq!(rels, vec!["build.rs", "README.md", "src/main.rs"]);
}

#[test]
fn confirmation_threshold() {
    assert_eq!(SAFETY_THRESHOLD, 30);
    assert!(!needs_confirmation(30, false, true));
    assert!(needs_confirmation(31, false, true));
    assert!(!needs_confirmation(31, true, true));
    assert!(!needs_confirmation(31, false, false));
}

#[test]
fn output_paths() {
    assert_eq!(output_file_path("out.txt", "20240101120000"), "out.txt");
    assert_eq!(output_file_path("notes.md", "20240101120000"), "notes.md");
    assert_eq!(output_file_path("dumps", "20240101120000"), "dumps/clump_20240101120000.txt");
    assert_eq!(output_file_path("dumps/", "1"), "dumps/clump_1.txt");
    assert_eq!(output_file_path(".hidden", "1"), ".hidden/clump_1.txt");
}

#[test]
fn flatten_csv_of_joined_lists_and_twice() {
    let x = s(&[" a, b", ",c "]);
    let y = s(&["d ,e", " "]);
    let mut xy = x.clone();
    xy.extend(y.clone());
    let mut joined = flatten_csv(&x);
    joined.extend(flatten_csv(&y));
    assert_eq!(flatten_csv(&xy), joined);
    assert_eq!(joined, s(&["a", "b", "c", "d", "e"]));
    let once = flatten_csv(&s(&["x , y,, z", "w"]));
    assert_eq!(flatten_csv(&once), once);
    assert!(once.iter().all(|item| !item.contains(',') && !item.is_empty() && item.trim() == item));
}
