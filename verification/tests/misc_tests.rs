use clump::banner::strip_ansi;
use clump::clipboard::{has_persistent_clipboard_daemon, persistent_clipboard_daemons, wayland_notice, WaylandNotice};
use clump::config::{
    config_path, config_path_in, default_char, default_files_config, default_output_config,
    default_placement, default_str, default_usize, max_depth_from_i64, max_depth_from_u64, Config,
    SortingMode,
};
use clump::paths::{join_path, normalize_sep, path_name_parts};
use clump::prompt::{allows_overwrite, exclusion_choice, is_yes, parse_interactive_items, ExclusionKind};
use clump::text::{trim_str, lex_compare, Order};

#[test]
fn strip_ansi_removes_escape_sequences() {
    assert_eq!(strip_ansi("\x1b[31mred\x1b[0m plain"), "red plain");
    assert_eq!(strip_ansi("a\x1bb"), "a\x1bb");
    assert_eq!(strip_ansi("x\x1b[1;2"), "x");
    assert_eq!(strip_ansi(""), "");
}

#[test]
fn clipboard_daemons() {
    assert_eq!(persistent_clipboard_daemons(), vec!["clipvault", "cliphist", "cliprust", "stash"]);
    assert!(!has_persistent_clipboard_daemon(&vec![false, false, false, false]));
    assert!(has_persistent_clipboard_daemon(&vec![false, false, true, false]));
}

#[test]
fn wayland_notices() {
    assert!(matches!(wayland_notice(false, false, false), WaylandNotice::Nothing));
    assert!(matches!(wayland_notice(true, true, true), WaylandNotice::Nothing));
    assert!(matches!(wayland_notice(true, false, false), WaylandNotice::NoClipboard));
    assert!(matches!(wayland_notice(true, true, false), WaylandNotice::NotPersistent));
}

#[test]
fn yes_no_answers() {
    assert!(is_yes("y"));
    assert!(is_yes("  YES\n"));
    assert!(!is_yes(""));
    assert!(!is_yes("no"));
    assert!(allows_overwrite(""));
    assert!(allows_overwrite("  \n"));
    assert!(allows_overwrite("Yep"));
    assert!(!allows_overwrite("n"));
}

#[test]
fn interactive_items_and_choices() {
    assert_eq!(parse_interactive_items("  \"*.tmp\"  'vendor'  x \"\" "), vec!["*.tmp", "vendor", "x"]);
    assert!(parse_interactive_items("   ").is_empty());
    assert!(matches!(exclusion_choice(" 1\n"), Some(ExclusionKind::Patterns)));
    assert!(matches!(exclusion_choice("2"), Some(ExclusionKind::Dirs)));
    assert!(matches!(exclusion_choice("3"), Some(ExclusionKind::Exts)));
    assert!(exclusion_choice("4").is_none());
    assert!(exclusion_choice("").is_none());
}

#[test]
fn configuration_defaults() {
    let c = Config::default();
    assert_eq!(c.sorting, SortingMode::FilesFirst);
    assert_eq!(c.files.exclude_dirs, vec!["node_modules".to_string(), ".git".to_string()]);
    assert!(c.output.separators);
    assert_eq!(c.output.separator_char, "-");
    assert_eq!(c.output.separator_placement, "both");
    assert_eq!(default_str(), "relative");
    assert_eq!(default_char(), "-");
    assert_eq!(default_placement(), "both");
    assert_eq!(default_usize(), 10000);
    assert!(!default_files_config().include_hidden);
    assert_eq!(default_output_config().header_style, "relative");
    assert_eq!(SortingMode::Flat.next(), SortingMode::FilesFirst);
}

#[test]
fn depth_limits() {
    assert_eq!(max_depth_from_u64(0), None);
    assert_eq!(max_depth_from_u64(3), Some(3));
    assert_eq!(max_depth_from_i64(0), None);
    assert_eq!(max_depth_from_i64(-2), None);
    assert_eq!(max_depth_from_i64(5), Some(5));
}

#[test]
fn configuration_file_location() {
    assert_eq!(config_path_in(Some("/home/u/.config".to_string())), "/home/u/.config/clump/config.ron");
    assert_eq!(config_path_in(None), "./clump/config.ron");
    let p = config_path();
    assert!(p.ends_with("clump/config.ron"));
    assert!(p != "clump/config.ron");
}

#[test]
fn path_helpers() {
    assert_eq!(join_path("a", "b"), "a/b");
    assert_eq!(join_path("a/", "b"), "a/b");
    assert_eq!(join_path("a", "/b"), "/b");
    assert_eq!(normalize_sep("a\\b\\c//"), "a/b/c");
    let (name, ext, stem) = path_name_parts("/x/y/lib.tar.gz");
    assert_eq!((name.as_str(), ext.as_str(), stem.as_str()), ("lib.tar.gz", ".gz", "lib.tar"));
    let (name, ext, stem) = path_name_parts("/x/.bashrc");
    assert_eq!((name.as_str(), ext.as_str(), stem.as_str()), (".bashrc", "", ".bashrc"));
}

#[test]
fn text_helpers() {
    assert_eq!(trim_str(" \t a b \n"), "a b");
    assert_eq!(lex_compare(&"ab".chars().collect(), &"b".chars().collect()), Order::Less);
    assert_eq!(lex_compare(&"b".chars().collect(), &"ab".chars().collect()), Order::Greater);
    assert_eq!(lex_compare(&"ab".chars().collect(), &"ab".chars().collect()), Order::Equal);
}

#[test]
fn plain_text_passes_strip_ansi_unchanged() {
    let plain = "clump  v0.1.0\n  ──── banner ────";
    assert_eq!(strip_ansi(plain), plain);
}
