use clump::config::SortingMode;
use clump::files::FileEntry;
use clump::order::{compare_entries, sort_tree_order};
use clump::output::{decimal_digits, generate_output, trim_char_vec};
use clump::text::Order;

fn entry(abs: &str, rel: &str) -> FileEntry {
    FileEntry { absolute: abs.to_string(), relative: rel.to_string() }
}

fn s(v: &[&str]) -> Vec<String> {
    v.iter().map(|x| x.to_string()).collect()
}

fn rels(v: &[FileEntry]) -> Vec<&str> {
    v.iter().map(|e| e.relative.as_str()).collect()
}

#[test]
fn output_with_relative_headers() {
    let entries = vec![entry("/r/a.txt", "a.txt"), entry("/r/b.txt", "b.txt")];
    let out = generate_output(&entries, &s(&["hello\n", "x\ny"]), "relative", false, "-", "both", false, true);
    assert_eq!(out, "\na.txt:\n\nhello\n\n\nb.txt:\n\nx\ny\n\n");
}

#[test]
fn output_with_absolute_and_no_headers() {
    let entries = vec![entry("/r/a.txt", "a.txt")];
    let abs = generate_output(&entries, &s(&["hi"]), "absolute", false, "-", "both", false, true);
    assert_eq!(abs, "\n/r/a.txt:\n\nhi\n\n");
    let none = generate_output(&entries, &s(&["hi"]), "none", false, "-", "both", false, true);
    assert_eq!(none, "\n\nhi\n\n");
}

#[test]
fn output_skips_empty_files() {
    let entries = vec![entry("/r/a.txt", "a.txt"), entry("/r/e.txt", "e.txt")];
    let out = generate_output(&entries, &s(&["a", "\n\n"]), "relative", false, "-", "both", false, true);
    assert_eq!(out, "\na.txt:\n\na\n\n\n");
    assert_eq!(generate_output(&vec![], &vec![], "relative", true, "=", "both", true, true), "\n");
}

#[test]
fn output_with_separators() {
    let entries = vec![entry("/r/ab", "ab")];
    let both = generate_output(&entries, &s(&["x"]), "relative", true, "=", "both", false, true);
    assert_eq!(both, "\n==\nab:\n==\n\nx\n\n");
    let above = generate_output(&entries, &s(&["x"]), "relative", true, "=", "above", false, true);
    assert_eq!(above, "\n==\nab:\n\nx\n\n");
    let below = generate_output(&entries, &s(&["x"]), "relative", true, "=", "below", false, true);
    assert_eq!(below, "\nab:\n==\n\nx\n\n");
    let off = generate_output(&entries, &s(&["x"]), "relative", false, "=", "both", false, true);
    assert_eq!(off, "\nab:\n\nx\n\n");
    // Without a header the separator is eighty characters long.
    let bare = generate_output(&entries, &s(&["x"]), "none", true, "-", "above", false, true);
    assert_eq!(bare, format!("\n{}\n\nx\n\n", "-".repeat(80)));
}

#[test]
fn output_with_line_numbers() {
    let entries = vec![entry("/r/a", "a")];
    let out = generate_output(&entries, &s(&["x\r\ny"]), "none", false, "-", "both", true, true);
    assert_eq!(out, "\n\n1 │ x\n2 │ y\n\n");
    let ten: Vec<String> = (1..=10).map(|i| i.to_string()).collect();
    let text = ten.join("\n");
    let padded = generate_output(&entries, &vec![text.clone()], "none", false, "-", "both", true, true);
    assert!(padded.starts_with("\n\n01 │ 1\n02 │ 2\n"));
    assert!(padded.ends_with("10 │ 10\n\n"));
    let unpadded = generate_output(&entries, &vec![text], "none", false, "-", "both", true, false);
    assert!(unpadded.starts_with("\n\n1 │ 1\n2 │ 2\n"));
}

#[test]
fn decimal_digit_strings() {
    assert_eq!(decimal_digits(0), vec!['0']);
    assert_eq!(decimal_digits(7), vec!['7']);
    assert_eq!(decimal_digits(1204), vec!['1', '2', '0', '4']);
}

#[test]
fn trim_chars() {
    assert_eq!(trim_char_vec(&"\n\nab\n".chars().collect(), '\n'), vec!['a', 'b']);
    assert!(trim_char_vec(&"\n\n".chars().collect(), '\n').is_empty());
}

#[test]
fn sorting_modes() {
    let make = || {
        vec![
            entry("/r/src/z.rs", "src/z.rs"),
            entry("/r/b.txt", "b.txt"),
            entry("/r/src/a/c.rs", "src/a/c.rs"),
            entry("/r/A.txt", "A.txt"),
        ]
    };
    let mut files_first = make();
    sort_tree_order(&mut files_first, &SortingMode::FilesFirst);
    assert_eq!(rels(&files_first), vec!["A.txt", "b.txt", "src/a/c.rs", "src/z.rs"]);
    let mut dirs_first = make();
    sort_tree_order(&mut dirs_first, &SortingMode::DirsFirst);
    assert_eq!(rels(&dirs_first), vec!["A.txt", "b.txt", "src/a/c.rs", "src/z.rs"]);
    let mut flat = make();
    sort_tree_order(&mut flat, &SortingMode::Flat);
    assert_eq!(rels(&flat), vec!["A.txt", "b.txt", "src/a/c.rs", "src/z.rs"]);
}

#[test]
fn files_first_and_dirs_first_differ_on_equal_names() {
    let make = || vec![entry("/r/x/y.rs", "x/y.rs"), entry("/r/x", "x")];
    let mut ff = make();
    sort_tree_order(&mut ff, &SortingMode::FilesFirst);
    assert_eq!(rels(&ff), vec!["x", "x/y.rs"]);
    let mut df = make();
    df.reverse();
    sort_tree_order(&mut df, &SortingMode::DirsFirst);
    assert_eq!(rels(&df), vec!["x/y.rs", "x"]);
}

#[test]
fn sorting_is_stable_and_keeps_everything() {
    let mut v = vec![entry("/x/a.rs", "a.rs"), entry("/y/a.rs", "a.rs"), entry("/r/B.rs", "B.rs")];
    sort_tree_order(&mut v, &SortingMode::Flat);
    let abs: Vec<&str> = v.iter().map(|e| e.absolute.as_str()).collect();
    assert_eq!(abs, vec!["/x/a.rs", "/y/a.rs", "/r/B.rs"]);
}

#[test]
fn comparing_entries_is_antisymmetric() {
    let a = entry("/r/x/y.rs", "x/y.rs");
    let b = entry("/r/x", "x");
    for mode in [SortingMode::FilesFirst, SortingMode::DirsFirst, SortingMode::Flat] {
        let ab = compare_entries(&mode, &a, &b);
        let ba = compare_entries(&mode, &b, &a);
        let flipped = match ab {
            Order::Less => Order::Greater,
            Order::Equal => Order::Equal,
            Order::Greater => Order::Less,
        };
        assert_eq!(ba, flipped);
    }
    assert_eq!(compare_entries(&SortingMode::FilesFirst, &b, &a), Order::Less);
    assert_eq!(compare_entries(&SortingMode::DirsFirst, &b, &a), Order::Greater);
}

#[test]
fn tree_sorting_is_stable_for_ties() {
    let mut v = vec![
        entry("/second/src/m.rs", "src/m.rs"),
        entry("/r/a.rs", "a.rs"),
        entry("/first/src/m.rs", "src/m.rs"),
    ];
    sort_tree_order(&mut v, &SortingMode::FilesFirst);
    let abs: Vec<&str> = v.iter().map(|e| e.absolute.as_str()).collect();
    assert_eq!(abs, vec!["/r/a.rs", "/second/src/m.rs", "/first/src/m.rs"]);
}
