use clump::filepicker::{entry_label, shows_name, sort_picker_entries, FilePicker, Key, KeyPress, ListedEntry, FileEntry, PickerStep};
use clump::form::RecipeForm;
use clump::fuzzypicker::FuzzySearch;

fn press(key: Key) -> KeyPress {
    KeyPress { key, ctrl: false, press: true }
}

fn listed(path: &str, name: &str, is_dir: bool, unreadable: bool) -> ListedEntry {
    ListedEntry { path: path.to_string(), name: name.to_string(), is_dir, unreadable_file: unreadable }
}

fn picker() -> FilePicker {
    let mut p = FilePicker::new("/work".to_string(), false);
    p.load_listing(&vec![
        listed("/work/zeta.rs", "zeta.rs", false, false),
        listed("/work/.hidden", ".hidden", false, false),
        listed("/work/src", "src", true, false),
        listed("/work/blob.bin", "blob.bin", false, true),
        listed("/work/alpha.md", "alpha.md", false, false),
        listed("/work/docs", "docs", true, false),
    ]);
    p
}

fn event(p: &mut FilePicker, k: KeyPress) -> PickerStep {
    assert!(p.event_is_safe(&k));
    p.handle_event(&k)
}

fn names(p: &FilePicker) -> Vec<&str> {
    p.entries.iter().map(|e| e.name.as_str()).collect()
}

#[test]
fn listing_hides_and_sorts() {
    let p = picker();
    assert_eq!(names(&p), vec!["docs", "src", "alpha.md", "zeta.rs"]);
    assert_eq!(p.cursor, Some(0));
    let mut shown = FilePicker::new("/work".to_string(), true);
    shown.load_listing(&vec![listed("/work/.hidden", ".hidden", false, false), listed("/work/b", "b", false, false)]);
    assert_eq!(names(&shown), vec![".hidden", "b"]);
}

#[test]
fn sorting_picker_entries() {
    let e = |n: &str, d: bool| FileEntry { path: format!("/w/{n}"), name: n.to_string(), is_dir: d };
    let v = sort_picker_entries(&vec![e("b", false), e("z", true), e("a", false), e("c", true)]);
    let ns: Vec<&str> = v.iter().map(|x| x.name.as_str()).collect();
    assert_eq!(ns, vec!["c", "z", "a", "b"]);
}

#[test]
fn browsing_moves_and_changes_directory() {
    let mut p = picker();
    assert!(matches!(event(&mut p, press(Key::Up)), PickerStep::Continue));
    assert_eq!(p.cursor, Some(3));
    event(&mut p, press(Key::Down));
    assert_eq!(p.cursor, Some(0));
    event(&mut p, press(Key::Char('j')));
    assert_eq!(p.cursor, Some(1));
    assert!(matches!(event(&mut p, press(Key::Right)), PickerStep::Reload));
    assert_eq!(p.current_dir, "/work/src");
    assert!(matches!(event(&mut p, press(Key::Left)), PickerStep::Reload));
    assert_eq!(p.current_dir, "/work");
    // A key that is not a press does nothing.
    let release = KeyPress { key: Key::Down, ctrl: false, press: false };
    assert!(matches!(event(&mut p, release), PickerStep::Continue));
    assert_eq!(p.cursor, Some(1));
    assert!(matches!(event(&mut p, press(Key::Char('.'))), PickerStep::Reload));
    assert!(p.show_hidden);
}

#[test]
fn root_has_no_parent() {
    let mut p = FilePicker::new("/".to_string(), false);
    assert!(matches!(event(&mut p, press(Key::Char('h'))), PickerStep::Continue));
    assert_eq!(p.current_dir, "/");
}

#[test]
fn toggling_and_confirming() {
    let mut p = picker();
    p.cursor = Some(2);
    match event(&mut p, press(Key::Char(' '))) {
        PickerStep::Toggle { path, deselect } => {
            assert_eq!(path, "/work/alpha.md");
            assert!(!deselect);
            p.apply_toggle(&path, deselect, &vec![]);
        }
        _ => panic!("expected a toggle"),
    }
    assert!(p.is_selected("/work/alpha.md"));
    p.cursor = Some(1);
    if let PickerStep::Toggle { path, deselect } = event(&mut p, press(Key::Char(' '))) {
        p.apply_toggle(&path, deselect, &vec!["/work/src/a.rs".to_string(), "/work/src/.h".to_string()]);
    }
    assert!(p.is_selected("/work/src/a.rs"));
    assert_eq!(p.dir_marks(&vec!["/work/src/a.rs".to_string(), "/work/src/b.rs".to_string()]), (false, true));
    assert_eq!(p.dir_marks(&vec!["/work/src/a.rs".to_string()]), (true, false));
    assert_eq!(p.dir_marks(&vec![]), (false, false));
    assert!(matches!(event(&mut p, press(Key::Enter)), PickerStep::Confirm));
    assert!(p.confirmed);
    let is_file: Vec<bool> = p.selected.iter().map(|s| s != "/work/src").collect();
    let mut files = p.confirm_files(&is_file);
    files.sort();
    assert_eq!(files, vec!["/work/alpha.md".to_string(), "/work/src/a.rs".to_string()]);
    // Toggling the directory again unselects it and what lies under it.
    p.cursor = Some(1);
    if let PickerStep::Toggle { path, deselect } = event(&mut p, press(Key::Char(' '))) {
        assert!(deselect);
        p.apply_toggle(&path, deselect, &vec!["/work/src/a.rs".to_string(), "/work/src/.h".to_string()]);
    }
    assert!(!p.is_selected("/work/src/a.rs"));
    assert!(p.is_selected("/work/alpha.md"));
    assert!(matches!(event(&mut p, press(Key::Esc)), PickerStep::Cancelled));
    assert!(p.cancelled);
}

#[test]
fn searching_in_the_picker() {
    let mut p = picker();
    event(&mut p, press(Key::Tab));
    assert!(p.fuzzy_active);
    event(&mut p, press(Key::Char('z')));
    assert_eq!(p.search.pattern, "z");
    assert_eq!(p.visible_entries(), vec![3]);
    event(&mut p, press(Key::Backspace));
    assert_eq!(p.visible_entries(), vec![0, 1, 2, 3]);
    event(&mut p, press(Key::Esc));
    assert!(!p.fuzzy_active);
}

#[test]
fn entry_labels() {
    assert_eq!(entry_label(true, false, false, "a.rs"), "\u{2705} \u{1F4C4} a.rs");
    assert_eq!(entry_label(false, true, true, "src"), "\u{1F539} \u{1F4C1} src");
    assert_eq!(entry_label(false, false, true, "src"), "   \u{1F4C1} src");
}

#[test]
fn search_box_editing() {
    let mut s = FuzzySearch::new();
    s.handle_input('a');
    s.handle_input('c');
    s.move_cursor_left();
    s.handle_input('b');
    assert_eq!(s.pattern, "abc");
    assert_eq!(s.cursor, 2);
    s.delete();
    assert_eq!(s.pattern, "ab");
    s.backspace();
    assert_eq!(s.pattern, "a");
    assert_eq!(s.cursor, 1);
    s.move_cursor_right();
    assert_eq!(s.cursor, 1);
    s.update_matches(&vec!["banana".to_string(), "cherry".to_string(), "Apple".to_string()]);
    assert_eq!(s.matches, vec![0, 2]);
    s.pattern = "   ".to_string();
    s.update_matches(&vec!["x".to_string(), "y".to_string()]);
    assert_eq!(s.matches, vec![0, 1]);
}

#[test]
fn form_editing_round_trip() {
    let mut f = RecipeForm::new();
    f.load("name", "dé", "cmd");
    assert_eq!(f.cursors, vec![4, 3, 3]);
    f.active_field = 2;
    f.insert_char('!');
    assert_eq!(f.fields[2], "cmd!");
    f.delete_before_cursor();
    assert_eq!(f.fields[2], "cmd");
    assert_eq!(f.cursors, vec![4, 3, 3]);
    f.step_cursor(-1);
    f.delete_at_cursor();
    assert_eq!(f.fields[2], "cm");
    f.step_cursor(1);
    f.step_cursor(1);
    assert_eq!(f.cursors[2], 2);
    f.clear();
    assert_eq!(f.fields, vec!["", "", ""]);
}

#[test]
fn typing_at_the_end_then_backspace_restores_the_pattern() {
    let mut s = FuzzySearch::new();
    for c in "ab".chars() {
        s.handle_input(c);
    }
    let before = (s.pattern.clone(), s.cursor);
    s.handle_input('é');
    assert_eq!(s.pattern, "abé");
    s.backspace();
    assert_eq!((s.pattern.clone(), s.cursor), before);
}

#[test]
fn hidden_names() {
    assert!(shows_name("src", false));
    assert!(!shows_name(".git", false));
    assert!(shows_name(".git", true));
    assert!(shows_name("", false));
}

#[test]
fn typing_in_the_middle_then_backspace_restores_the_pattern() {
    let mut s = FuzzySearch::new();
    for c in "ab".chars() {
        s.handle_input(c);
    }
    s.move_cursor_left();
    s.handle_input('é');
    assert_eq!(s.pattern, "aéb");
    s.backspace();
    assert_eq!(s.pattern, "ab");
    assert_eq!(s.cursor, 1);
}

#[test]
fn ascii_typing_anywhere_then_backspace_restores_the_pattern() {
    for at in 0..=3usize {
        let mut s = FuzzySearch::new();
        for c in "abc".chars() {
            s.handle_input(c);
        }
        s.cursor = at;
        s.handle_input('x');
        let mut expected = "abc".to_string();
        expected.insert(at, 'x');
        assert_eq!(s.pattern, expected);
        assert_eq!(s.cursor, at + 1);
        s.backspace();
        assert_eq!(s.pattern, "abc");
        assert_eq!(s.cursor, at);
    }
}
