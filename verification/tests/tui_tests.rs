use clump::cli::ClumpParams;
use clump::config::{Config, SortingMode};
use clump::filepicker::{FilePicker, Key, KeyPress, ListedEntry, PickerStep};
use clump::recipe::Recipe;
use clump::tui::{
    main_menu_items, output_menu_items, screen_layout, RecipeMode, TuiApp, TuiState, TuiStep,
};

fn press(key: Key) -> KeyPress {
    KeyPress { key, ctrl: false, press: true }
}

fn recipe(name: &str, desc: &str, cmd: &str) -> Recipe {
    Recipe { name: name.to_string(), description: desc.to_string(), command: cmd.to_string() }
}

fn app_with(recipes: Vec<Recipe>) -> TuiApp {
    let picker = FilePicker::new("/work".to_string(), false);
    let mut app = TuiApp::new(recipes, Config::default(), picker, 4);
    app.init_menus();
    app
}

fn key(app: &mut TuiApp, k: Key) -> TuiStep {
    let kp = press(k);
    assert!(app.key_is_safe(&kp));
    app.handle_key(&kp)
}

fn params() -> ClumpParams {
    ClumpParams {
        search_paths: vec![".".to_string()],
        only_patterns: vec![],
        exclude_patterns: vec![],
        exclude_dirs: vec![],
        exclude_exts: vec![],
        max_depth: None,
        include_hidden: false,
        header_style: "relative".to_string(),
        separator: false,
        output_file: None,
        nocopy: false,
        selected_files: None,
        line_numbers: false,
        padding: true,
    }
}

#[test]
fn menus_start_on_their_first_entry() {
    let app = app_with(vec![]);
    assert_eq!(app.state, TuiState::MainMenu);
    assert_eq!(app.main_menu, Some(0));
    assert_eq!(app.output_menu, Some(0));
    let items = main_menu_items();
    let ids: Vec<&str> = items.iter().map(|x| x.0).collect();
    assert_eq!(ids, vec!["select_files", "recipes", "config", "help", "quit"]);
    assert_eq!(output_menu_items().len(), 5);
}

#[test]
fn main_menu_wraps_and_down_up_returns() {
    let mut app = app_with(vec![]);
    assert!(matches!(key(&mut app, Key::Up), TuiStep::Continue));
    assert_eq!(app.main_menu, Some(4));
    key(&mut app, Key::Down);
    assert_eq!(app.main_menu, Some(0));
    key(&mut app, Key::Char('j'));
    key(&mut app, Key::Char('k'));
    assert_eq!(app.main_menu, Some(0));
    assert!(matches!(key(&mut app, Key::Char('q')), TuiStep::Quit));
}

#[test]
fn main_menu_entries_open_screens() {
    let mut app = app_with(vec![]);
    app.main_menu = Some(3);
    app.help_offset = 2;
    key(&mut app, Key::Enter);
    assert_eq!(app.state, TuiState::Help);
    assert_eq!(app.help_offset, 0);
    for _ in 0..10 {
        key(&mut app, Key::Down);
    }
    assert_eq!(app.help_offset, 3);
    key(&mut app, Key::Esc);
    assert_eq!(app.state, TuiState::MainMenu);
    app.main_menu = Some(0);
    app.file_picker.selected = vec!["/work/a".to_string()];
    app.file_picker.current_dir = "/work/sub".to_string();
    assert!(matches!(key(&mut app, Key::Enter), TuiStep::LoadPicker));
    assert_eq!(app.state, TuiState::FilePicker);
    assert!(app.file_picker.selected.is_empty());
    assert_eq!(app.file_picker.current_dir, "/work");
    app.state = TuiState::MainMenu;
    app.main_menu = Some(4);
    assert!(matches!(key(&mut app, Key::Char(' ')), TuiStep::Quit));
}

#[test]
fn configuration_screen_cycles() {
    let mut app = app_with(vec![]);
    app.main_menu = Some(2);
    key(&mut app, Key::Enter);
    assert_eq!(app.state, TuiState::ConfigEditor);
    assert_eq!(app.config_labels()[0], "\u{1F4C4} Files First");
    key(&mut app, Key::Enter);
    assert_eq!(app.app_config.sorting, SortingMode::DirsFirst);
    key(&mut app, Key::Enter);
    assert_eq!(app.app_config.sorting, SortingMode::Flat);
    assert_eq!(app.config_labels()[0], "\u{1F4CA} Flat (Alphabetical)");
    key(&mut app, Key::Enter);
    assert_eq!(app.app_config.sorting, SortingMode::FilesFirst);
    key(&mut app, Key::Down);
    key(&mut app, Key::Enter);
    assert!(app.app_config.files.include_hidden);
    assert_eq!(app.config_labels()[1], "\u{1F441}\u{FE0F}  Show Hidden Files");
    key(&mut app, Key::Enter);
    assert!(!app.app_config.files.include_hidden);
    key(&mut app, Key::Down);
    key(&mut app, Key::Enter);
    assert_eq!(app.state, TuiState::MainMenu);
}

#[test]
fn recipes_browse_edit_and_delete() {
    let mut app = app_with(vec![recipe("alpha", "first", "src"), recipe("beta", "", "lib")]);
    app.main_menu = Some(1);
    key(&mut app, Key::Enter);
    assert_eq!(app.state, TuiState::RecipesMenu);
    assert_eq!(app.recipe_mode, RecipeMode::Browse);
    assert_eq!(app.recipe_form.fields[0], "alpha");
    key(&mut app, Key::Down);
    assert_eq!(app.recipes_menu, Some(1));
    assert_eq!(app.recipe_form.fields[0], "beta");
    assert_eq!(app.recipe_form.fields[2], "lib");
    // Run the recipe under the cursor.
    match key(&mut app, Key::Char('r')) {
        TuiStep::RunRecipe(r) => assert_eq!(r.name, "beta"),
        _ => panic!("expected a run"),
    }
    // Edit it: move to the command field, type, save.
    key(&mut app, Key::Char('e'));
    assert_eq!(app.recipe_mode, RecipeMode::Edit);
    assert_eq!(app.recipe_edit_target, Some(1));
    key(&mut app, Key::Down);
    key(&mut app, Key::Down);
    key(&mut app, Key::Char('/'));
    key(&mut app, Key::Char('x'));
    key(&mut app, Key::Left);
    key(&mut app, Key::Backspace);
    assert_eq!(app.recipe_form.fields[2], "libx");
    assert!(matches!(key(&mut app, Key::Enter), TuiStep::SaveRecipes));
    assert_eq!(app.recipe_mode, RecipeMode::Browse);
    assert_eq!(app.recipes[1].command, "libx");
    // Add a new one.
    key(&mut app, Key::Char('a'));
    for c in "new".chars() {
        key(&mut app, Key::Char(c));
    }
    assert!(matches!(key(&mut app, Key::Enter), TuiStep::SaveRecipes));
    assert_eq!(app.recipes.len(), 3);
    assert_eq!(app.recipes[2].name, "new");
    // Delete the one under the cursor.
    assert!(matches!(key(&mut app, Key::Char('d')), TuiStep::SaveRecipes));
    assert_eq!(app.recipes.len(), 2);
    assert_eq!(app.recipes[0].name, "alpha");
    assert_eq!(app.recipes[1].name, "new");
    key(&mut app, Key::Esc);
    assert_eq!(app.state, TuiState::MainMenu);
}

#[test]
fn recipes_search_filters_with_the_fuzzy_matcher() {
    let mut app = app_with(vec![recipe("alpha", "first", "src"), recipe("beta", "second", "lib")]);
    app.main_menu = Some(1);
    key(&mut app, Key::Enter);
    key(&mut app, Key::Tab);
    assert_eq!(app.recipe_mode, RecipeMode::Fuzzy);
    key(&mut app, Key::Char('b'));
    key(&mut app, Key::Char('t'));
    assert_eq!(app.recipe_search.pattern, "bt");
    assert_eq!(app.visible_recipe_indices(), vec![1]);
    match key(&mut app, Key::Enter) {
        TuiStep::RunRecipe(r) => assert_eq!(r.name, "beta"),
        _ => panic!("expected a run"),
    }
    key(&mut app, Key::Backspace);
    assert_eq!(app.recipe_search.pattern, "b");
    key(&mut app, Key::Left);
    key(&mut app, Key::Delete);
    assert_eq!(app.recipe_search.pattern, "");
    assert_eq!(app.visible_recipe_indices(), vec![0, 1]);
    key(&mut app, Key::Esc);
    assert_eq!(app.recipe_mode, RecipeMode::Browse);
}

#[test]
fn output_screen_actions() {
    let mut app = app_with(vec![]);
    app.show_output("combined".to_string());
    assert_eq!(app.state, TuiState::OutputOptions);
    assert!(matches!(key(&mut app, Key::Char('l')), TuiStep::Continue));
    assert!(app.line_numbers);
    let ready = app.recipe_params_ready(params());
    assert!(ready.line_numbers && ready.padding);
    match key(&mut app, Key::Char('l')) {
        TuiStep::RerunOutput(p) => assert!(!p.line_numbers && p.padding),
        _ => panic!("expected a rerun"),
    }
    app.output_menu = Some(2);
    match key(&mut app, Key::Enter) {
        TuiStep::PrintNumbered(p) => assert!(p.line_numbers),
        _ => panic!("expected a print"),
    }
    app.output_menu = Some(1);
    assert!(matches!(key(&mut app, Key::Enter), TuiStep::Quit));
    assert_eq!(app.pending_print, Some("combined".to_string()));
    app.output_menu = Some(0);
    assert!(matches!(key(&mut app, Key::Enter), TuiStep::CopyOutputAndQuit));
    app.output_menu = Some(3);
    assert!(matches!(key(&mut app, Key::Enter), TuiStep::SaveOutputAndQuit));
    app.output_menu = Some(4);
    assert!(matches!(key(&mut app, Key::Enter), TuiStep::Quit));
    assert_eq!(app.state, TuiState::MainMenu);
}

#[test]
fn picker_confirmation_builds_parameters() {
    let mut app = app_with(vec![]);
    app.state = TuiState::FilePicker;
    assert!(app.picker_confirmed(vec![]).is_none());
    assert_eq!(app.state, TuiState::MainMenu);
    app.line_numbers = true;
    let p = app.picker_confirmed(vec!["/work/a.rs".to_string()]).unwrap();
    assert_eq!(p.selected_files, Some(vec!["/work/a.rs".to_string()]));
    assert_eq!(p.header_style, "relative");
    assert!(p.separator && p.line_numbers && p.padding && !p.nocopy);
    assert!(app.active_params.is_some());
    let q = app.recipe_action_params(params());
    assert_eq!(q.include_hidden, app.app_config.files.include_hidden);
}

#[test]
fn picker_screen_forwards_keys() {
    let mut app = app_with(vec![]);
    app.state = TuiState::FilePicker;
    app.file_picker.load_listing(&vec![
        ListedEntry { path: "/work/b.rs".to_string(), name: "b.rs".to_string(), is_dir: false, unreadable_file: false },
        ListedEntry { path: "/work/src".to_string(), name: "src".to_string(), is_dir: true, unreadable_file: false },
    ]);
    match key(&mut app, Key::Char(' ')) {
        TuiStep::Picker(PickerStep::Toggle { path, deselect }) => {
            assert_eq!(path, "/work/src");
            assert!(!deselect);
        }
        _ => panic!("expected a toggle"),
    }
    assert!(matches!(key(&mut app, Key::Esc), TuiStep::Picker(PickerStep::Cancelled)));
    assert_eq!(app.state, TuiState::MainMenu);
}

#[test]
fn footer_follows_the_screen() {
    let mut app = app_with(vec![]);
    assert_eq!(app.footer_text(), "↑↓/jk: Navigate  Enter/Space: Select  Esc/Q: Quit");
    app.state = TuiState::OutputOptions;
    assert_eq!(app.footer_text(), "↑↓/jk: Navigate  Enter/Space: Choose  l: Line# OFF  Esc: Back");
    app.state = TuiState::FilePicker;
    assert_eq!(
        app.footer_text(),
        "↑↓/jk: Nav  ←h/→l: Dir  Space: Toggle  Ctrl+.  Enter: Confirm  .: Show hidden  Tab/f: Find"
    );
}

#[test]
fn layouts() {
    let l = screen_layout(40, 9, true);
    assert_eq!((l.content_y, l.content_h, l.footer_y), (9, 30, 39));
    assert_eq!((l.list_h, l.form_h), (18, 12));
    let small = screen_layout(20, 9, true);
    assert_eq!((small.content_h, small.form_h, small.list_h), (10, 7, 3));
    let plain = screen_layout(5, 9, false);
    assert_eq!((plain.content_h, plain.list_h, plain.form_h, plain.footer_y), (0, 0, 0, 4));
}

#[test]
fn recipe_list_screen_runs_the_first_recipe_of_the_name() {
    let mut app = app_with(vec![recipe("dup", "first", "a"), recipe("other", "", "b"), recipe("dup", "second", "c")]);
    app.state = TuiState::RecipeAction;
    key(&mut app, Key::Up);
    assert_eq!(app.recipe_action, Some(2));
    match key(&mut app, Key::Enter) {
        TuiStep::RunRecipeOrFail(r) => assert_eq!(r.description, "first"),
        _ => panic!("expected a run"),
    }
    key(&mut app, Key::Esc);
    assert_eq!(app.state, TuiState::RecipesMenu);
    let mut empty = app_with(vec![]);
    empty.state = TuiState::RecipeAction;
    key(&mut empty, Key::Down);
    assert_eq!(empty.state, TuiState::RecipeAction);
    key(&mut empty, Key::Enter);
    assert_eq!(empty.state, TuiState::RecipesMenu);
}

#[test]
fn opening_on_the_recipe_list() {
    let mut app = app_with(vec![recipe("first", "d1", "src"), recipe("second", "d2", ".")]);
    assert_eq!(app.state, TuiState::MainMenu);
    app.open_recipes();
    assert_eq!(app.state, TuiState::RecipesMenu);
}
