use clump::files::{
    apply_exclusions, classify_dir_exclude, classify_exclude, compile_dir_patterns, filter_by_only,
    has_glob_chars, looks_binary, max_walk_depth, single_file_entries, walk_entry_kept, DirExcludePattern,
    ExcludePattern, FileEntry,
};

fn s(v: &[&str]) -> Vec<String> {
    v.iter().map(|x| x.to_string()).collect()
}

fn entry(abs: &str, rel: &str) -> FileEntry {
    FileEntry { absolute: abs.to_string(), relative: rel.to_string() }
}

fn rels(v: &[FileEntry]) -> Vec<&str> {
    v.iter().map(|e| e.relative.as_str()).collect()
}

#[test]
fn glob_chars() {
    assert!(has_glob_chars("*.rs"));
    assert!(has_glob_chars("a?c"));
    assert!(has_glob_chars("[ab]"));
    assert!(!has_glob_chars("src/main.rs"));
}

#[test]
fn classify_file_rules() {
    assert!(matches!(classify_exclude("literal: a\\b/ "), ExcludePattern::LiteralPath(p) if p == "a/b"));
    assert!(matches!(classify_exclude("*.log"), ExcludePattern::GlobBasename(g) if g == "*.log"));
    assert!(matches!(classify_exclude("src/*.rs"), ExcludePattern::GlobPath(g) if g == "src/*.rs"));
    assert!(matches!(classify_exclude("**[x"), ExcludePattern::LiteralPath(p) if p == "**[x"));
    assert!(matches!(classify_exclude("target/"), ExcludePattern::LiteralPath(p) if p == "target"));
}

#[test]
fn classify_dir_rules() {
    assert!(matches!(classify_dir_exclude("literal: node_modules "), DirExcludePattern::LiteralBasename(b) if b == "node_modules"));
    assert!(matches!(classify_dir_exclude("build*"), DirExcludePattern::GlobBasename(g) if g == "build*"));
    assert!(matches!(classify_dir_exclude("**/gen"), DirExcludePattern::GlobPath(g) if g == "**/gen"));
    assert!(matches!(classify_dir_exclude("a/b/"), DirExcludePattern::LiteralPath(p) if p == "a/b"));
    assert!(matches!(classify_dir_exclude("vendor"), DirExcludePattern::LiteralBasename(b) if b == "vendor"));
}

#[test]
fn rule_matching() {
    assert!(classify_exclude("*.log").matches("app.log", "logs/app.log"));
    assert!(!classify_exclude("*.log").matches("app.txt", "logs/app.txt"));
    assert!(classify_exclude("logs/*").matches("app.txt", "logs/app.txt"));
    assert!(classify_exclude("docs").matches("a.md", "docs/a.md"));
    assert!(!classify_exclude("docs").matches("a.md", "docsx/a.md"));
    assert!(classify_dir_exclude("vendor").matches("vendor", "x/vendor"));
    assert!(classify_dir_exclude("x/vendor").matches("vendor", "x/vendor"));
    assert!(!classify_dir_exclude("x/vendor").matches("vendor", "y/vendor"));
}

#[test]
fn exclusions_drop_matching_files() {
    let entries = vec![
        entry("/r/a.rs", "a.rs"),
        entry("/r/app.log", "app.log"),
        entry("/r/docs/x.md", "docs/x.md"),
        entry("/r/img.PNG", "img.PNG"),
        entry("/r/img.png", "img.png"),
    ];
    let r = apply_exclusions(&entries, &s(&["*.log", "docs"]), &s(&["png"]));
    assert_eq!(rels(&r), vec!["a.rs", "img.PNG"]);
    let none = apply_exclusions(&entries, &vec![], &vec![]);
    assert_eq!(none.len(), entries.len());
}

#[test]
fn only_keeps_by_extension_name_or_stem() {
    let entries = vec![
        entry("/r/Makefile", "Makefile"),
        entry("/r/main.rs", "main.rs"),
        entry("/r/README.md", "README.md"),
        entry("/r/.env", ".env"),
    ];
    let r = filter_by_only(&entries, &s(&[".rs", "Makefile", "README"]));
    assert_eq!(rels(&r), vec!["Makefile", "main.rs", "README.md"]);
    let all = filter_by_only(&entries, &vec![]);
    assert_eq!(all.len(), 4);
    // A dot file has no extension, so ".env" does not select it.
    assert!(filter_by_only(&entries, &s(&[".env"])).is_empty());
}

#[test]
fn walk_decisions() {
    let pats = compile_dir_patterns(&s(&["node_modules", "a/gen"]));
    assert!(walk_entry_kept(0, ".git", "", true, false, &pats));
    assert!(!walk_entry_kept(1, ".git", ".git", true, false, &pats));
    assert!(walk_entry_kept(1, ".git", ".git", true, true, &pats));
    assert!(!walk_entry_kept(2, "node_modules", "x/node_modules", true, false, &pats));
    assert!(walk_entry_kept(2, "node_modules", "x/node_modules", false, false, &pats));
    assert!(!walk_entry_kept(2, "gen", "a/gen", true, false, &pats));
    assert!(walk_entry_kept(2, "gen", "b/gen", true, false, &pats));
}

#[test]
fn walk_depth() {
    assert_eq!(max_walk_depth(Some(0)), 1);
    assert_eq!(max_walk_depth(Some(3)), 4);
    assert_eq!(max_walk_depth(None), usize::MAX);
}

#[test]
fn binary_detection() {
    assert!(!looks_binary(&vec![]));
    assert!(!looks_binary(&b"hello world\n".to_vec()));
    assert!(looks_binary(&vec![b'a', 0, b'b']));
    // Four text bytes out of five is text; three out of five is binary.
    assert!(!looks_binary(&vec![b'a', b'b', b'c', b'd', 0xff]));
    assert!(looks_binary(&vec![b'a', b'b', b'c', 0xff, 0xfe]));
    // UTF-8 letters beyond ASCII do not count as text.
    assert!(looks_binary(&"ééé".as_bytes().to_vec()));
}

#[test]
fn more_exclusions_keep_no_more_and_keep_order() {
    let entries = vec![
        entry("/r/z.rs", "z.rs"),
        entry("/r/app.log", "app.log"),
        entry("/r/a.md", "a.md"),
        entry("/r/img.png", "img.png"),
    ];
    let before = apply_exclusions(&entries, &s(&["*.log"]), &vec![]);
    assert_eq!(rels(&before), vec!["z.rs", "a.md", "img.png"]);
    let after = apply_exclusions(&entries, &s(&["*.log", "a.md"]), &s(&[".png"]));
    assert_eq!(rels(&after), vec!["z.rs"]);
    assert_eq!(apply_exclusions(&before, &s(&["*.log", "a.md"]), &s(&[".png"])).len(), after.len());
    assert_eq!(rels(&apply_exclusions(&entries, &vec![], &vec![])), rels(&entries));
}

#[test]
fn only_twice_is_only_once() {
    let entries = vec![
        entry("/r/b.rs", "b.rs"),
        entry("/r/a.md", "a.md"),
        entry("/r/Makefile", "Makefile"),
        entry("/r/a.rs", "a.rs"),
    ];
    let pats = s(&[".rs", "Makefile"]);
    let once = filter_by_only(&entries, &pats);
    assert_eq!(rels(&once), vec!["b.rs", "Makefile", "a.rs"]);
    assert_eq!(rels(&filter_by_only(&once, &pats)), rels(&once));
}

#[test]
fn single_file_root() {
    assert!(single_file_entries("/r/a.bin".to_string(), "a.bin".to_string(), true).is_empty());
    let one = single_file_entries("/r/a.rs".to_string(), "./a.rs".to_string(), false);
    assert_eq!(one.len(), 1);
    assert_eq!(one[0].absolute, "/r/a.rs");
    assert_eq!(one[0].relative, "./a.rs");
}
