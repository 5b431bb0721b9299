use vstd::prelude::*;
use vstd::pervasive::VecAdditionalExecFns;
use vstd::string::StringExecFns;

use crate::cli::ClumpParams;
use crate::config::{Config, SortingMode};
use crate::filepicker::{is_control, is_control_char, picker_step, FilePicker, Key, KeyPress, PickerStep};
use crate::files::{str_eq, str_views};
use crate::form::{char_inserted, cursor_stepped, deleted_at, deleted_before, RecipeForm};
use crate::fuzzypicker::{all_indices, backspaced, deleted, search_matches, typed, FuzzySearch};
use crate::recipe::{find_recipe, remove_named, without_name, Recipe};
use crate::text::{byte_len, chars_of, copy_str, is_byte_boundary, push_char, push_str};

verus! {

/// The screen being shown.
#[derive(Debug, Clone, Copy, PartialEq, Eq, Structural)]
pub enum TuiState {
    MainMenu,
    FilePicker,
    RecipesMenu,
    RecipeAction,
    OutputOptions,
    ConfigEditor,
    Help,
}

/// What the recipes screen is doing.
#[derive(Debug, Clone, Copy, PartialEq, Eq, Structural)]
pub enum RecipeMode {
    Browse,
    Edit,
    Fuzzy,
}

/// What the interface's caller must do after a key.
#[derive(Debug)]
pub enum TuiStep {
    /// Nothing.
    Continue,
    /// Leave the interface.
    Quit,
    /// List the picker's directory and hand the listing to `FilePicker::load_listing`; a
    /// failure ends the interface with that error.
    LoadPicker,
    /// What the picker asked for (see `PickerStep`); a failed listing there empties the
    /// picker (`FilePicker::clear_entries`), and a confirmation goes on to
    /// `FilePicker::confirm_files` and `picker_confirmed`.
    Picker(PickerStep),
    /// Turn the recipe's command into parameters, hand them to `recipe_params_ready`, run
    /// what comes back and hand the output to `show_output`; a failure at any step is
    /// ignored.
    RunRecipe(Recipe),
    /// Turn the recipe's command into parameters, hand them to `recipe_action_params`,
    /// run what comes back and hand the output to `show_output`; a failure ends the
    /// interface with that error.
    RunRecipeOrFail(Recipe),
    /// Run these parameters and, on success, hand the output to `set_output`.
    RerunOutput(ClumpParams),
    /// Run these parameters; on success hand the output to `set_pending_print` and leave
    /// the interface, on failure go on.
    PrintNumbered(ClumpParams),
    /// Save the recipes (a failure is only reported).
    SaveRecipes,
    /// Copy the output, if any, to the clipboard, report a failure, and leave.
    CopyOutputAndQuit,
    /// Write the output, if any, to a time-stamped file and leave; a failure ends the
    /// interface with that error.
    SaveOutputAndQuit,
}

/// The state of the interactive interface.
#[derive(Debug)]
pub struct TuiApp {
    pub state: TuiState,
    pub recipes: Vec<Recipe>,
    pub output_text: Option<String>,
    pub main_menu: Option<usize>,
    pub recipes_menu: Option<usize>,
    pub recipe_action: Option<usize>,
    pub output_menu: Option<usize>,
    pub config_menu: Option<usize>,
    pub file_picker: FilePicker,
    pub pending_print: Option<String>,
    pub app_config: Config,
    pub recipe_search: FuzzySearch,
    pub recipe_mode: RecipeMode,
    pub recipe_form: RecipeForm,
    pub recipe_edit_target: Option<usize>,
    pub active_params: Option<ClumpParams>,
    pub line_numbers: bool,
    pub help_lines: usize,
    pub help_offset: usize,
}

/// The entries of the main menu: an identifier and a label each.
pub fn main_menu_items() -> (r: Vec<(&'static str, &'static str)>)
    ensures
        r@.len() == 5,
        r@[0].0@ == "select_files"@,
        r@[1].0@ == "recipes"@,
        r@[2].0@ == "config"@,
        r@[3].0@ == "help"@,
        r@[4].0@ == "quit"@,
        r@[0].1@ == "\u{1F4C1} Select"@,
        r@[1].1@ == "\u{1F4DA} Recipes"@,
        r@[2].1@ == "\u{2699}\u{FE0F} Configuration"@,
        r@[3].1@ == "\u{2753} Help"@,
        r@[4].1@ == "Quit"@,
{
    let mut v: Vec<(&'static str, &'static str)> = Vec::new();
    v.push(("select_files", "\u{1F4C1} Select"));
    v.push(("recipes", "\u{1F4DA} Recipes"));
    v.push(("config", "\u{2699}\u{FE0F} Configuration"));
    v.push(("help", "\u{2753} Help"));
    v.push(("quit", "Quit"));
    v
}

/// The cursor after moving down a wrapping list of `len` entries.
pub open spec fn wrap_next(cur: Option<usize>, len: nat) -> Option<usize> {
    let i = match cur {
        Some(i) => i as int,
        None => 0,
    };
    if len > 0 {
        Some(((i + 1) % (len as int)) as usize)
    } else {
        cur
    }
}

/// The cursor after moving up a wrapping list of `len` entries.
pub open spec fn wrap_prev(cur: Option<usize>, len: nat) -> Option<usize> {
    let i = match cur {
        Some(i) => i as int,
        None => 0,
    };
    if len > 0 {
        Some((if i == 0 {
            len - 1
        } else {
            i - 1
        }) as usize)
    } else {
        cur
    }
}

fn next_index(cur: Option<usize>, len: usize) -> (r: Option<usize>)
    ensures
        r == wrap_next(cur, len as nat),
{
    if len == 0 {
        return cur;
    }
    let i = match cur {
        Some(i) => i,
        None => 0,
    };
    Some(((i as u128 + 1) % (len as u128)) as usize)
}

fn prev_index(cur: Option<usize>, len: usize) -> (r: Option<usize>)
    ensures
        r == wrap_prev(cur, len as nat),
{
    if len == 0 {
        return cur;
    }
    let i = match cur {
        Some(i) => i,
        None => 0,
    };
    Some(
        if i == 0 {
            len - 1
        } else {
            i - 1
        },
    )
}

/// The text a recipe is searched by: its name, a space, and its description.
pub open spec fn recipe_haystacks(rs: Seq<Recipe>) -> Seq<Seq<char>> {
    rs.map_values(|r: Recipe| r.name@ + seq![' '] + r.description@)
}

/// Whether two parameter sets agree field by field.
pub open spec fn same_params(a: ClumpParams, b: ClumpParams) -> bool {
    &&& a.search_paths@ == b.search_paths@
    &&& a.only_patterns@ == b.only_patterns@
    &&& a.exclude_patterns@ == b.exclude_patterns@
    &&& a.exclude_dirs@ == b.exclude_dirs@
    &&& a.exclude_exts@ == b.exclude_exts@
    &&& a.max_depth == b.max_depth
    &&& a.include_hidden == b.include_hidden
    &&& a.header_style == b.header_style
    &&& a.separator == b.separator
    &&& a.output_file == b.output_file
    &&& a.nocopy == b.nocopy
    &&& (match (a.selected_files, b.selected_files) {
        (Some(x), Some(y)) => x@ == y@,
        (None, None) => true,
        _ => false,
    })
    &&& a.line_numbers == b.line_numbers
    &&& a.padding == b.padding
}

fn clone_strings(v: &Vec<String>) -> (r: Vec<String>)
    ensures
        r@ == v@,
{
    let mut out: Vec<String> = Vec::new();
    let mut i: usize = 0;
    while i < v.len()
        invariant
            i <= v@.len(),
            out@ == v@.take(i as int),
        decreases v@.len() - i,
    {
        out.push(v[i].clone());
        assert(out@ =~= v@.take(i + 1));
        i = i + 1;
    }
    assert(v@.take(v@.len() as int) =~= v@);
    out
}

impl ClumpParams {
    /// A field-by-field copy.
    pub fn copy(&self) -> (r: Self)
        ensures
            same_params(r, *self),
    {
        ClumpParams {
            search_paths: clone_strings(&self.search_paths),
            only_patterns: clone_strings(&self.only_patterns),
            exclude_patterns: clone_strings(&self.exclude_patterns),
            exclude_dirs: clone_strings(&self.exclude_dirs),
            exclude_exts: clone_strings(&self.exclude_exts),
            max_depth: self.max_depth,
            include_hidden: self.include_hidden,
            header_style: self.header_style.clone(),
            separator: self.separator,
            output_file: match &self.output_file {
                Some(o) => Some(o.clone()),
                None => None,
            },
            nocopy: self.nocopy,
            selected_files: match &self.selected_files {
                Some(v) => Some(clone_strings(v)),
                None => None,
            },
            line_numbers: self.line_numbers,
            padding: self.padding,
        }
    }
}

impl TuiApp {
    /// The indices into `recipes` of the recipes listed: the in-range search matches
    /// while searching with a non-empty pattern, all recipes otherwise.
    pub open spec fn visible_recipes(&self) -> Seq<usize> {
        if self.recipe_mode == RecipeMode::Fuzzy && self.recipe_search.pattern@.len() > 0 {
            self.recipe_search.matches@.filter(|i: usize| i < self.recipes@.len())
        } else {
            all_indices(self.recipes@.len())
        }
    }

    /// A fresh interface on the main menu, with the given recipes, configuration and
    /// picker, a help text of `help_lines` lines, and the recipe search matching all
    /// recipes.
    pub fn new(recipes: Vec<Recipe>, app_config: Config, file_picker: FilePicker, help_lines: usize) -> (r: Self)
        ensures
            r.state == TuiState::MainMenu,
            r.recipes == recipes,
            r.output_text is None,
            r.main_menu is None && r.recipes_menu is None && r.recipe_action is None
                && r.output_menu is None && r.config_menu is None,
            r.file_picker == file_picker,
            r.pending_print is None,
            r.app_config == app_config,
            r.recipe_search.pattern@.len() == 0,
            r.recipe_search.cursor == 0,
            r.recipe_search.matches@ == all_indices(recipes@.len()),
            r.recipe_mode == RecipeMode::Browse,
            r.recipe_form.wf() && r.recipe_form.active_field == 0,
            r.recipe_edit_target is None,
            r.active_params is None,
            !r.line_numbers,
            r.help_lines == help_lines,
            r.help_offset == 0,
    {
        let mut app = TuiApp {
            state: TuiState::MainMenu,
            recipes,
            output_text: None,
            main_menu: None,
            recipes_menu: None,
            recipe_action: None,
            output_menu: None,
            config_menu: None,
            file_picker,
            pending_print: None,
            app_config,
            recipe_search: FuzzySearch::new(),
            recipe_mode: RecipeMode::Browse,
            recipe_form: RecipeForm::new(),
            recipe_edit_target: None,
            active_params: None,
            line_numbers: false,
            help_lines,
            help_offset: 0,
        };
        app.refresh_recipe_matches();
        app
    }

    /// Puts every menu cursor that is not set on the first entry.
    pub fn init_menus(&mut self)
        ensures
            *final(self) == (TuiApp {
                main_menu: if old(self).main_menu is None { Some(0usize) } else { old(self).main_menu },
                recipes_menu: if old(self).recipes_menu is None { Some(0usize) } else { old(self).recipes_menu },
                recipe_action: if old(self).recipe_action is None { Some(0usize) } else { old(self).recipe_action },
                output_menu: if old(self).output_menu is None { Some(0usize) } else { old(self).output_menu },
                config_menu: if old(self).config_menu is None { Some(0usize) } else { old(self).config_menu },
                ..*old(self)
            }),
    {
        if self.main_menu.is_none() {
            self.main_menu = Some(0);
        }
        if self.recipes_menu.is_none() {
            self.recipes_menu = Some(0);
        }
        if self.recipe_action.is_none() {
            self.recipe_action = Some(0);
        }
        if self.output_menu.is_none() {
            self.output_menu = Some(0);
        }
        if self.config_menu.is_none() {
            self.config_menu = Some(0);
        }
    }

    /// The indices of the recipes listed (see `visible_recipes`).
    pub fn visible_recipe_indices(&self) -> (r: Vec<usize>)
        ensures
            r@ == self.visible_recipes(),
    {
        let mut out: Vec<usize> = Vec::new();
        if self.recipe_mode == RecipeMode::Fuzzy && !self.recipe_search.pattern.as_str().is_empty() {
            let ghost m = self.recipe_search.matches@;
            let ghost pred = |i: usize| i < self.recipes@.len();
            let mut k: usize = 0;
            assert(m.take(0).filter(pred) =~= Seq::<usize>::empty());
            while k < self.recipe_search.matches.len()
                invariant
                    k <= m.len(),
                    m == self.recipe_search.matches@,
                    pred == (|i: usize| i < self.recipes@.len()),
                    out@ == m.take(k as int).filter(pred),
                decreases m.len() - k,
            {
                let i = self.recipe_search.matches[k];
                proof {
                    assert(m.take(k + 1) =~= m.take(k as int).push(i));
                    m.take(k as int).lemma_filter_push(i, pred);
                }
                if i < self.recipes.len() {
                    out.push(i);
                }
                k = k + 1;
            }
            assert(m.take(m.len() as int) =~= m);
        } else {
            let mut i: usize = 0;
            while i < self.recipes.len()
                invariant
                    i <= self.recipes@.len(),
                    out@ == all_indices(i as nat),
                decreases self.recipes@.len() - i,
            {
                out.push(i);
                assert(out@ =~= all_indices((i + 1) as nat));
                i = i + 1;
            }
        }
        out
    }

    /// Recomputes which recipes the recipe search matches, searching each recipe's name
    /// and description.
    pub fn refresh_recipe_matches(&mut self)
        ensures
            *final(self) == (TuiApp { recipe_search: final(self).recipe_search, ..*old(self) }),
            final(self).recipe_search.pattern == old(self).recipe_search.pattern,
            final(self).recipe_search.cursor == old(self).recipe_search.cursor,
            final(self).recipe_search.matches@ == search_matches(
                old(self).recipe_search.pattern@,
                recipe_haystacks(old(self).recipes@),
            ),
    {
        let mut hay: Vec<String> = Vec::new();
        let mut i: usize = 0;
        while i < self.recipes.len()
            invariant
                i <= self.recipes@.len(),
                str_views(hay@) == recipe_haystacks(self.recipes@).take(i as int),
            decreases self.recipes@.len() - i,
        {
            let r = &self.recipes[i];
            let mut h = copy_str(r.name.as_str());
            push_char(&mut h, ' ');
            push_str(&mut h, r.description.as_str());
            let ghost prev = hay@;
            let ghost hv = h@;
            assert(hv == r.name@ + seq![' '] + r.description@);
            hay.push(h);
            assert(str_views(hay@) =~= str_views(prev).push(hv));
            assert(recipe_haystacks(self.recipes@).take(i + 1) =~= recipe_haystacks(self.recipes@).take(i as int).push(r.name@ + seq![' '] + r.description@));
            i = i + 1;
        }
        assert(recipe_haystacks(self.recipes@).take(self.recipes@.len() as int) =~= recipe_haystacks(self.recipes@));
        self.recipe_search.update_matches(&hay);
    }

    /// Loads the recipe under the recipes cursor (the first when there is no cursor)
    /// into the form, when there is one.
    pub fn sync_form_to_selected(&mut self)
        requires
            old(self).recipe_form.wf(),
        ensures
            *final(self) == (TuiApp { recipe_form: final(self).recipe_form, ..*old(self) }),
            final(self).recipe_form.wf(),
            form_synced(*old(self), final(self).recipe_form),
    {
        let idx = match self.recipes_menu {
            Some(i) => i,
            None => 0,
        };
        let vis = self.visible_recipe_indices();
        if idx < vis.len() {
            let k = vis[idx];
            proof {
                assert(self.visible_recipes().contains(k));
            }
            let r = &self.recipes[k];
            let name = copy_str(r.name.as_str());
            let desc = copy_str(r.description.as_str());
            let cmd = copy_str(r.command.as_str());
            self.recipe_form.load(name.as_str(), desc.as_str(), cmd.as_str());
            assert(self.recipe_form.cursors@ =~= seq![byte_len(name@) as usize, byte_len(desc@) as usize, byte_len(cmd@) as usize]);
        }
    }
}

/// Whether `form` is what syncing the form of `o` gives: the recipe under the recipes
/// cursor loaded, or the old form when the cursor is past the list.
pub open spec fn form_synced(o: TuiApp, form: RecipeForm) -> bool {
    let idx = match o.recipes_menu {
        Some(i) => i as int,
        None => 0,
    };
    let vis = o.visible_recipes();
    if idx < vis.len() {
        let r = o.recipes@[vis[idx] as int];
        &&& form.wf()
        &&& form.active_field == 0
        &&& form.fields@[0]@ == r.name@
        &&& form.fields@[1]@ == r.description@
        &&& form.fields@[2]@ == r.command@
        &&& form.cursors@ == seq![byte_len(r.name@) as usize, byte_len(r.description@) as usize, byte_len(r.command@) as usize]
    } else {
        form == o.recipe_form
    }
}

/// The search state `f` is `o` with its matches recomputed over `recipes`.
pub open spec fn refreshed(o: FuzzySearch, f: FuzzySearch, recipes: Seq<Recipe>) -> bool {
    &&& f.pattern == o.pattern
    &&& f.cursor == o.cursor
    &&& f.matches@ == search_matches(o.pattern@, recipe_haystacks(recipes))
}

/// The sorting mode that follows `m` on the configuration screen.
pub open spec fn sorting_after(m: SortingMode) -> SortingMode {
    match m {
        SortingMode::FilesFirst => SortingMode::DirsFirst,
        SortingMode::DirsFirst => SortingMode::Flat,
        SortingMode::Flat => SortingMode::FilesFirst,
    }
}

/// `f` is `o` back on the main menu with its first entry under the cursor.
pub open spec fn to_main_menu(o: TuiApp, f: TuiApp) -> bool {
    f == (TuiApp { state: TuiState::MainMenu, main_menu: Some(0usize), ..o })
}

/// The help screen: the arrows (or k and j) scroll the text a line within its length,
/// Esc or q go back to the main menu; only presses count.
pub open spec fn help_step(o: TuiApp, f: TuiApp, k: KeyPress) -> bool {
    let max: int = if o.help_lines > 0 { o.help_lines - 1 } else { 0 };
    if !k.press {
        f == o
    } else if k.key == Key::Up || k.key == Key::Char('k') {
        f == (TuiApp {
            help_offset: if o.help_offset > 0 { (o.help_offset - 1) as usize } else { 0usize },
            ..o
        })
    } else if k.key == Key::Down || k.key == Key::Char('j') {
        f == (TuiApp {
            help_offset: if o.help_offset < max { (o.help_offset + 1) as usize } else { o.help_offset },
            ..o
        })
    } else if k.key == Key::Esc || k.key == Key::Char('q') {
        to_main_menu(o, f)
    } else {
        f == o
    }
}

/// `f` is `o` on the file picker, emptied of its selection and search, back at its root.
pub open spec fn picker_opened(o: TuiApp, f: TuiApp) -> bool {
    let fp = f.file_picker;
    &&& f == (TuiApp { state: TuiState::FilePicker, file_picker: fp, ..o })
    &&& fp == (FilePicker {
        current_dir: fp.current_dir,
        selected: fp.selected,
        fuzzy_active: false,
        search: fp.search,
        ..o.file_picker
    })
    &&& fp.current_dir == o.file_picker.root
    &&& fp.selected@.len() == 0
    &&& fp.search == (FuzzySearch { pattern: fp.search.pattern, ..o.file_picker.search })
    &&& fp.search.pattern@.len() == 0
}

/// `f` is `o` on the recipes screen, browsing, with the form showing the recipe under
/// the cursor, the matches recomputed and the cursor on the first recipe.
pub open spec fn recipes_opened(o: TuiApp, f: TuiApp) -> bool {
    let m = TuiApp { state: TuiState::RecipesMenu, recipe_mode: RecipeMode::Browse, ..o };
    &&& form_synced(m, f.recipe_form)
    &&& refreshed(o.recipe_search, f.recipe_search, o.recipes@)
    &&& f == (TuiApp {
        recipe_form: f.recipe_form,
        recipe_search: f.recipe_search,
        recipes_menu: Some(0usize),
        ..m
    })
}

/// The main menu: the arrows (or j and k) move the cursor round the five entries;
/// Enter or Space opens the entry under it (the file picker, the recipes, the
/// configuration, the help, or quit); q or Esc quit.
pub open spec fn main_menu_step(o: TuiApp, f: TuiApp, k: KeyPress, r: TuiStep) -> bool {
    if k.key == Key::Down || k.key == Key::Char('j') {
        f == (TuiApp { main_menu: wrap_next(o.main_menu, 5), ..o }) && r is Continue
    } else if k.key == Key::Up || k.key == Key::Char('k') {
        f == (TuiApp { main_menu: wrap_prev(o.main_menu, 5), ..o }) && r is Continue
    } else if k.key == Key::Enter || k.key == Key::Char(' ') {
        match o.main_menu {
            Some(i) => if i == 0 {
                picker_opened(o, f) && r is LoadPicker
            } else if i == 1 {
                recipes_opened(o, f) && r is Continue
            } else if i == 2 {
                f == (TuiApp { state: TuiState::ConfigEditor, config_menu: Some(0usize), ..o })
                    && r is Continue
            } else if i == 3 {
                f == (TuiApp { state: TuiState::Help, help_offset: 0usize, ..o }) && r is Continue
            } else if i == 4 {
                f == o && r is Quit
            } else {
                f == o && r is Continue
            },
            None => f == o && r is Continue,
        }
    } else if k.key == Key::Char('q') || k.key == Key::Esc {
        f == o && r is Quit
    } else {
        f == o && r is Continue
    }
}

/// The configuration screen: the arrows (or j and k) move round its three entries;
/// Enter or Space cycles the sorting mode, toggles hidden files, or goes back; Esc goes
/// back.
pub open spec fn config_step(o: TuiApp, f: TuiApp, k: KeyPress) -> bool {
    if k.key == Key::Down || k.key == Key::Char('j') {
        f == (TuiApp { config_menu: wrap_next(o.config_menu, 3), ..o })
    } else if k.key == Key::Up || k.key == Key::Char('k') {
        f == (TuiApp { config_menu: wrap_prev(o.config_menu, 3), ..o })
    } else if k.key == Key::Enter || k.key == Key::Char(' ') {
        let i: int = match o.config_menu {
            Some(i) => i as int,
            None => 0,
        };
        if i == 0 {
            f == (TuiApp {
                app_config: Config { sorting: sorting_after(o.app_config.sorting), ..o.app_config },
                ..o
            })
        } else if i == 1 {
            f.app_config.files.include_hidden == !o.app_config.files.include_hidden
                && f.app_config.files.max_depth == o.app_config.files.max_depth
                && f.app_config.files.exclude_dirs == o.app_config.files.exclude_dirs
                && f.app_config.files.exclude_patterns == o.app_config.files.exclude_patterns
                && f.app_config == (Config { files: f.app_config.files, ..o.app_config })
                && f == (TuiApp { app_config: f.app_config, ..o })
        } else if i == 2 {
            to_main_menu(o, f)
        } else {
            f == o
        }
    } else if k.key == Key::Esc {
        to_main_menu(o, f)
    } else {
        f == o
    }
}

/// The parameters `p` with line numbers set to `ln` and padding on.
pub open spec fn with_line_numbers(q: ClumpParams, p: ClumpParams, ln: bool) -> bool {
    same_params(q, ClumpParams { line_numbers: ln, padding: true, ..p })
}

/// The output screen: the arrows (or j and k) move round its five entries; l toggles
/// line numbers and asks for the output again; Enter or Space copies the output and
/// quits, prints it and quits, prints it with line numbers, saves it and quits, or goes
/// back to the main menu and quits; Esc goes back to the main menu.
pub open spec fn output_step(o: TuiApp, f: TuiApp, k: KeyPress, r: TuiStep) -> bool {
    if k.key == Key::Down || k.key == Key::Char('j') {
        f == (TuiApp { output_menu: wrap_next(o.output_menu, 5), ..o }) && r is Continue
    } else if k.key == Key::Up || k.key == Key::Char('k') {
        f == (TuiApp { output_menu: wrap_prev(o.output_menu, 5), ..o }) && r is Continue
    } else if k.key == Key::Char('l') || k.key == Key::Char('L') {
        f == (TuiApp { line_numbers: !o.line_numbers, ..o }) && match o.active_params {
            Some(p) => r matches TuiStep::RerunOutput(q) && with_line_numbers(q, p, !o.line_numbers),
            None => r is Continue,
        }
    } else if k.key == Key::Enter || k.key == Key::Char(' ') {
        match o.output_menu {
            Some(i) => if i == 0 {
                f == o && r is CopyOutputAndQuit
            } else if i == 1 {
                f == (TuiApp { pending_print: o.output_text, ..o }) && r is Quit
            } else if i == 2 {
                f == o && match o.active_params {
                    Some(p) => r matches TuiStep::PrintNumbered(q) && with_line_numbers(q, p, true),
                    None => r is Continue,
                }
            } else if i == 3 {
                f == o && r is SaveOutputAndQuit
            } else if i == 4 {
                to_main_menu(o, f) && r is Quit
            } else {
                f == o && r is Continue
            },
            None => f == o && r is Continue,
        }
    } else if k.key == Key::Esc {
        to_main_menu(o, f) && r is Continue
    } else {
        f == o && r is Continue
    }
}

/// The recipe list screen: with no recipes, Esc or Enter go back to the recipes screen;
/// otherwise the arrows (or j and k) move round the recipes, Enter or Space run the
/// first recipe that bears the name of the one under the cursor, and Esc goes back.
pub open spec fn recipe_action_step(o: TuiApp, f: TuiApp, k: KeyPress, r: TuiStep) -> bool {
    let n = o.recipes@.len();
    if n == 0 {
        r is Continue && if k.key == Key::Esc || k.key == Key::Enter {
            f == (TuiApp { state: TuiState::RecipesMenu, ..o })
        } else {
            f == o
        }
    } else if k.key == Key::Down || k.key == Key::Char('j') {
        f == (TuiApp { recipe_action: wrap_next(o.recipe_action, n), ..o }) && r is Continue
    } else if k.key == Key::Up || k.key == Key::Char('k') {
        f == (TuiApp { recipe_action: wrap_prev(o.recipe_action, n), ..o }) && r is Continue
    } else if k.key == Key::Enter || k.key == Key::Char(' ') {
        f == o && match o.recipe_action {
            Some(i) => if i < n {
                r matches TuiStep::RunRecipeOrFail(rec) && exists|j: int|
                    0 <= j <= i && rec == o.recipes@[j] && rec.name@ == o.recipes@[i as int].name@
                        && forall|m: int| 0 <= m < j ==> o.recipes@[m].name@ != rec.name@
            } else {
                r is Continue
            },
            None => r is Continue,
        }
    } else if k.key == Key::Esc {
        f == (TuiApp { state: TuiState::RecipesMenu, recipes_menu: Some(0usize), ..o }) && r is Continue
    } else {
        f == o && r is Continue
    }
}

/// `f` is `o` with the recipes cursor at `cur` and the form showing the recipe there.
pub open spec fn moved_and_synced(o: TuiApp, f: TuiApp, cur: Option<usize>) -> bool {
    let m = TuiApp { recipes_menu: cur, ..o };
    form_synced(m, f.recipe_form) && f == (TuiApp { recipe_form: f.recipe_form, ..m })
}

/// Running the listed recipe under the cursor, if there is one: `o` is unchanged and the
/// recipe is handed out.
pub open spec fn run_selected(o: TuiApp, f: TuiApp, r: TuiStep) -> bool {
    let vis = o.visible_recipes();
    f == o && match o.recipes_menu {
        Some(i) => if i < vis.len() {
            r matches TuiStep::RunRecipe(rec) && rec == o.recipes@[vis[i as int] as int]
        } else {
            r is Continue
        },
        None => r is Continue,
    }
}

/// `f` is `o` with the recipes replaced by `rs`, the matches recomputed and the form
/// showing the recipe under the cursor.
pub open spec fn recipes_rewritten(o: TuiApp, f: TuiApp, rs: Seq<Recipe>) -> bool {
    let m = TuiApp { recipes: f.recipes, recipe_search: f.recipe_search, ..o };
    &&& f.recipes@ == rs
    &&& refreshed(o.recipe_search, f.recipe_search, rs)
    &&& form_synced(m, f.recipe_form)
    &&& f == (TuiApp { recipe_form: f.recipe_form, ..m })
}

/// An empty form on its first field.
pub open spec fn form_cleared(fm: RecipeForm) -> bool {
    &&& fm.wf()
    &&& fm.active_field == 0
    &&& fm.fields@[0]@.len() == 0
    &&& fm.fields@[1]@.len() == 0
    &&& fm.fields@[2]@.len() == 0
    &&& fm.cursors@ == seq![0usize, 0usize, 0usize]
}

/// The recipe that the form's three fields describe.
pub open spec fn form_recipe(fm: RecipeForm) -> Recipe {
    Recipe { name: fm.fields@[0], description: fm.fields@[1], command: fm.fields@[2] }
}

/// The recipes after saving the form: the recipe at `target` replaced by the form's (if
/// `target` is in range), or the form's recipe added at the end when there is no target.
pub open spec fn saved_recipes(rs: Seq<Recipe>, target: Option<usize>, fm: RecipeForm) -> Seq<Recipe> {
    match target {
        Some(i) => if i < rs.len() {
            rs.update(i as int, form_recipe(fm))
        } else {
            rs
        },
        None => rs.push(form_recipe(fm)),
    }
}

/// Browsing the recipes: the arrows (or k and j) move round the listed recipes and show
/// the one under the cursor; Enter or r run it; e edits it; a starts a new one; d deletes
/// every recipe of its name; Esc goes back to the main menu.
pub open spec fn browse_recipes_step(o: TuiApp, f: TuiApp, k: KeyPress, r: TuiStep) -> bool {
    let vis = o.visible_recipes();
    let n = vis.len();
    if k.key == Key::Up || k.key == Key::Char('k') {
        moved_and_synced(o, f, wrap_prev(o.recipes_menu, n)) && r is Continue
    } else if k.key == Key::Down || k.key == Key::Char('j') {
        moved_and_synced(o, f, wrap_next(o.recipes_menu, n)) && r is Continue
    } else if k.key == Key::Enter || k.key == Key::Char('r') {
        run_selected(o, f, r)
    } else if k.key == Key::Char('e') {
        r is Continue && match o.recipes_menu {
            Some(i) => form_synced(o, f.recipe_form) && f == (TuiApp {
                recipe_form: f.recipe_form,
                recipe_edit_target: Some(i),
                recipe_mode: RecipeMode::Edit,
                ..o
            }),
            None => f == o,
        }
    } else if k.key == Key::Char('a') {
        form_cleared(f.recipe_form) && f == (TuiApp {
            recipe_form: f.recipe_form,
            recipe_edit_target: None,
            recipe_mode: RecipeMode::Edit,
            ..o
        }) && r is Continue
    } else if k.key == Key::Char('d') {
        match o.recipes_menu {
            Some(i) => if i < n {
                recipes_rewritten(o, f, without_name(o.recipes@, o.recipes@[vis[i as int] as int].name@))
                    && r is SaveRecipes
            } else {
                f == o && r is Continue
            },
            None => f == o && r is Continue,
        }
    } else if k.key == Key::Esc {
        to_main_menu(o, f) && r is Continue
    } else {
        f == o && r is Continue
    }
}

/// Editing a recipe: Up and Down move round the three fields, Left and Right move the
/// cursor, Backspace and Delete delete, other printable characters are typed, and Enter
/// saves the recipe (see `saved_recipes`) and goes back to browsing.
pub open spec fn edit_recipe_step(o: TuiApp, f: TuiApp, k: KeyPress, r: TuiStep) -> bool {
    let fm = o.recipe_form;
    let kept = f == (TuiApp { recipe_form: f.recipe_form, ..o });
    match k.key {
        Key::Up => kept && f.recipe_form == (RecipeForm {
            active_field: if fm.active_field == 0 { 2usize } else { (fm.active_field - 1) as usize },
            ..fm
        }) && r is Continue,
        Key::Down => kept && f.recipe_form == (RecipeForm {
            active_field: ((fm.active_field + 1) % 3) as usize,
            ..fm
        }) && r is Continue,
        Key::Left => kept && cursor_stepped(fm, f.recipe_form, false) && r is Continue,
        Key::Right => kept && cursor_stepped(fm, f.recipe_form, true) && r is Continue,
        Key::Backspace => kept && deleted_before(fm, f.recipe_form) && r is Continue,
        Key::Delete => kept && deleted_at(fm, f.recipe_form) && r is Continue,
        Key::Char(c) => r is Continue && if !is_control_char(c) {
            kept && char_inserted(fm, f.recipe_form, c)
        } else {
            f == o
        },
        Key::Enter => recipes_rewritten(
            o,
            TuiApp { recipe_mode: o.recipe_mode, ..f },
            saved_recipes(o.recipes@, o.recipe_edit_target, fm),
        ) && f.recipe_mode == RecipeMode::Browse && r is SaveRecipes,
        _ => f == o && r is Continue,
    }
}

/// Searching the recipes: Backspace, Delete and printable characters edit the pattern
/// and recompute the matches, Left and Right (without Control) move its cursor, Up and
/// Down move round the matching recipes and show the one under the cursor, Enter runs it.
pub open spec fn fuzzy_recipes_step(o: TuiApp, f: TuiApp, k: KeyPress, r: TuiStep) -> bool {
    let n = o.visible_recipes().len();
    let s = o.recipe_search;
    let t = f.recipe_search;
    let searched = f == (TuiApp { recipe_search: t, ..o }) && t.matches@ == search_matches(
        t.pattern@,
        recipe_haystacks(o.recipes@),
    );
    match k.key {
        Key::Backspace => searched && backspaced(s, t) && r is Continue,
        Key::Delete => searched && deleted(s, t) && r is Continue,
        Key::Left => r is Continue && if !k.ctrl {
            f == (TuiApp {
                recipe_search: FuzzySearch {
                    cursor: if s.cursor > 0 { (s.cursor - 1) as usize } else { 0usize },
                    ..s
                },
                ..o
            })
        } else {
            f == o
        },
        Key::Right => r is Continue && if !k.ctrl {
            f == (TuiApp {
                recipe_search: FuzzySearch {
                    cursor: if s.cursor < byte_len(s.pattern@) { (s.cursor + 1) as usize } else { s.cursor },
                    ..s
                },
                ..o
            })
        } else {
            f == o
        },
        Key::Char(c) => r is Continue && if !is_control_char(c) {
            searched && typed(s, t, c)
        } else {
            f == o
        },
        Key::Up => moved_and_synced(o, f, wrap_prev(o.recipes_menu, n)) && r is Continue,
        Key::Down => moved_and_synced(o, f, wrap_next(o.recipes_menu, n)) && r is Continue,
        Key::Enter => run_selected(o, f, r),
        _ => f == o && r is Continue,
    }
}

/// The recipes screen: only presses count. Browsing, f, F or Tab start a search (an
/// empty pattern, the cursor on the first recipe); searching, Esc, Tab or f end it (the
/// pattern emptied, all recipes matching again); editing, Esc goes back to browsing and
/// shows the recipe under the cursor. Other keys go by the mode.
pub open spec fn recipes_step(o: TuiApp, f: TuiApp, k: KeyPress, r: TuiStep) -> bool {
    let s = o.recipe_search;
    let t = f.recipe_search;
    if !k.press {
        f == o && r is Continue
    } else if o.recipe_mode == RecipeMode::Browse && (k.key == Key::Char('f') || k.key == Key::Char(
        'F',
    ) || k.key == Key::Tab) {
        f == (TuiApp { recipe_mode: RecipeMode::Fuzzy, recipe_search: t, recipes_menu: Some(0usize), ..o })
            && t.pattern@.len() == 0 && t.cursor == 0 && t.matches == s.matches && r is Continue
    } else if o.recipe_mode == RecipeMode::Fuzzy && (k.key == Key::Esc || k.key == Key::Tab || k.key
        == Key::Char('f')) {
        f == (TuiApp { recipe_mode: RecipeMode::Browse, recipe_search: t, recipes_menu: Some(0usize), ..o })
            && t.pattern@.len() == 0 && t.cursor == s.cursor && t.matches@ == all_indices(
            o.recipes@.len(),
        ) && r is Continue
    } else if o.recipe_mode == RecipeMode::Edit && k.key == Key::Esc {
        let m = TuiApp { recipe_mode: RecipeMode::Browse, ..o };
        form_synced(m, f.recipe_form) && f == (TuiApp { recipe_form: f.recipe_form, ..m }) && r is Continue
    } else if o.recipe_mode == RecipeMode::Browse {
        browse_recipes_step(o, f, k, r)
    } else if o.recipe_mode == RecipeMode::Edit {
        edit_recipe_step(o, f, k, r)
    } else {
        fuzzy_recipes_step(o, f, k, r)
    }
}

/// The file picker screen: the key goes to the picker, whose answer is handed out;
/// when it cancels, the main menu comes back.
pub open spec fn picker_screen_step(o: TuiApp, f: TuiApp, k: KeyPress, r: TuiStep) -> bool {
    r matches TuiStep::Picker(p) && picker_step(o.file_picker, f.file_picker, k, p) && f == (TuiApp {
        file_picker: f.file_picker,
        state: if p is Cancelled { TuiState::MainMenu } else { o.state },
        ..o
    })
}

/// Whether the recipes screen can handle a key without breaking an editing operation's
/// precondition: the search cursor on a character boundary for Backspace, Delete and
/// typing while searching, and the form cursor within its field for Backspace and
/// typing while editing (and below `usize::MAX` for Right and typing).
pub open spec fn recipes_key_safe(o: TuiApp, k: KeyPress) -> bool {
    let s = o.recipe_search;
    let fm = o.recipe_form;
    !k.press || match o.recipe_mode {
        RecipeMode::Fuzzy => match k.key {
            Key::Backspace => s.cursor > 0 ==> is_byte_boundary(s.pattern@, s.cursor - 1) && s.cursor - 1
                < byte_len(s.pattern@),
            Key::Delete => s.cursor < byte_len(s.pattern@) ==> is_byte_boundary(s.pattern@, s.cursor as int),
            Key::Char(c) => c == 'f' || is_control_char(c) || (is_byte_boundary(s.pattern@, s.cursor as int)
                && s.cursor < usize::MAX),
            _ => true,
        },
        RecipeMode::Edit => match k.key {
            Key::Right => fm.active_cursor() < usize::MAX,
            Key::Backspace => fm.active_cursor() <= fm.active_text().len(),
            Key::Char(c) => is_control_char(c) || (fm.active_cursor() <= fm.active_text().len()
                && fm.active_cursor() < usize::MAX),
            _ => true,
        },
        RecipeMode::Browse => true,
    }
}

/// What a key does to the interface, by screen.
pub open spec fn key_step(o: TuiApp, f: TuiApp, k: KeyPress, r: TuiStep) -> bool {
    match o.state {
        TuiState::MainMenu => main_menu_step(o, f, k, r),
        TuiState::FilePicker => picker_screen_step(o, f, k, r),
        TuiState::RecipesMenu => recipes_step(o, f, k, r),
        TuiState::RecipeAction => recipe_action_step(o, f, k, r),
        TuiState::OutputOptions => output_step(o, f, k, r),
        TuiState::ConfigEditor => config_step(o, f, k) && r is Continue,
        TuiState::Help => help_step(o, f, k) && r is Continue,
    }
}

impl TuiApp {
    fn handle_help_key(&mut self, k: &KeyPress) -> (r: TuiStep)
        ensures
            help_step(*old(self), *final(self), *k),
            r is Continue,
    {
        if !k.press {
            return TuiStep::Continue;
        }
        let max: usize = if self.help_lines > 0 {
            self.help_lines - 1
        } else {
            0
        };
        let key = k.key;
        if key == Key::Up || key == Key::Char('k') {
            if self.help_offset > 0 {
                self.help_offset = self.help_offset - 1;
            }
        } else if key == Key::Down || key == Key::Char('j') {
            if self.help_offset < max {
                self.help_offset = self.help_offset + 1;
            }
        } else if key == Key::Esc || key == Key::Char('q') {
            self.state = TuiState::MainMenu;
            self.main_menu = Some(0);
        }
        TuiStep::Continue
    }

    fn open_file_picker(&mut self)
        ensures
            picker_opened(*old(self), *final(self)),
    {
        self.state = TuiState::FilePicker;
        self.file_picker.selected = Vec::new();
        self.file_picker.fuzzy_active = false;
        self.file_picker.search.pattern = String::new();
        self.file_picker.current_dir = self.file_picker.root.clone();
    }

    /// Opens the recipes screen, browsing, with the matches recomputed, the cursor on the
    /// first recipe and the form showing it (what `recipes_opened` describes).
    pub fn open_recipes(&mut self)
        requires
            old(self).recipe_form.wf(),
        ensures
            recipes_opened(*old(self), *final(self)),
            final(self).recipe_form.wf(),
    {
        self.state = TuiState::RecipesMenu;
        self.recipe_mode = RecipeMode::Browse;
        self.sync_form_to_selected();
        self.refresh_recipe_matches();
        self.recipes_menu = Some(0);
    }

    fn handle_main_menu_key(&mut self, k: &KeyPress) -> (r: TuiStep)
        requires
            old(self).recipe_form.wf(),
        ensures
            main_menu_step(*old(self), *final(self), *k, r),
            final(self).recipe_form.wf(),
    {
        let key = k.key;
        if key == Key::Down || key == Key::Char('j') {
            self.main_menu = next_index(self.main_menu, 5);
            TuiStep::Continue
        } else if key == Key::Up || key == Key::Char('k') {
            self.main_menu = prev_index(self.main_menu, 5);
            TuiStep::Continue
        } else if key == Key::Enter || key == Key::Char(' ') {
            match self.main_menu {
                Some(i) => {
                    if i == 0 {
                        self.open_file_picker();
                        TuiStep::LoadPicker
                    } else if i == 1 {
                        self.open_recipes();
                        TuiStep::Continue
                    } else if i == 2 {
                        self.state = TuiState::ConfigEditor;
                        self.config_menu = Some(0);
                        TuiStep::Continue
                    } else if i == 3 {
                        self.state = TuiState::Help;
                        self.help_offset = 0;
                        TuiStep::Continue
                    } else if i == 4 {
                        TuiStep::Quit
                    } else {
                        TuiStep::Continue
                    }
                },
                None => TuiStep::Continue,
            }
        } else if key == Key::Char('q') || key == Key::Esc {
            TuiStep::Quit
        } else {
            TuiStep::Continue
        }
    }

    fn handle_config_key(&mut self, k: &KeyPress) -> (r: TuiStep)
        ensures
            config_step(*old(self), *final(self), *k),
            r is Continue,
    {
        let key = k.key;
        if key == Key::Down || key == Key::Char('j') {
            self.config_menu = next_index(self.config_menu, 3);
        } else if key == Key::Up || key == Key::Char('k') {
            self.config_menu = prev_index(self.config_menu, 3);
        } else if key == Key::Enter || key == Key::Char(' ') {
            let i: usize = match self.config_menu {
                Some(i) => i,
                None => 0,
            };
            if i == 0 {
                self.app_config.sorting = self.app_config.sorting.next();
            } else if i == 1 {
                self.app_config.files.include_hidden = !self.app_config.files.include_hidden;
            } else if i == 2 {
                self.state = TuiState::MainMenu;
                self.main_menu = Some(0);
            }
        } else if key == Key::Esc {
            self.state = TuiState::MainMenu;
            self.main_menu = Some(0);
        }
        TuiStep::Continue
    }

    fn handle_output_key(&mut self, k: &KeyPress) -> (r: TuiStep)
        ensures
            output_step(*old(self), *final(self), *k, r),
    {
        let key = k.key;
        if key == Key::Down || key == Key::Char('j') {
            self.output_menu = next_index(self.output_menu, 5);
            TuiStep::Continue
        } else if key == Key::Up || key == Key::Char('k') {
            self.output_menu = prev_index(self.output_menu, 5);
            TuiStep::Continue
        } else if key == Key::Char('l') || key == Key::Char('L') {
            self.line_numbers = !self.line_numbers;
            match &self.active_params {
                Some(p) => {
                    let mut q = p.copy();
                    q.line_numbers = self.line_numbers;
                    q.padding = true;
                    TuiStep::RerunOutput(q)
                },
                None => TuiStep::Continue,
            }
        } else if key == Key::Enter || key == Key::Char(' ') {
            match self.output_menu {
                Some(i) => {
                    if i == 0 {
                        TuiStep::CopyOutputAndQuit
                    } else if i == 1 {
                        self.pending_print = match &self.output_text {
                            Some(o) => Some(o.clone()),
                            None => None,
                        };
                        TuiStep::Quit
                    } else if i == 2 {
                        match &self.active_params {
                            Some(p) => {
                                let mut q = p.copy();
                                q.line_numbers = true;
                                q.padding = true;
                                TuiStep::PrintNumbered(q)
                            },
                            None => TuiStep::Continue,
                        }
                    } else if i == 3 {
                        TuiStep::SaveOutputAndQuit
                    } else if i == 4 {
                        self.state = TuiState::MainMenu;
                        self.main_menu = Some(0);
                        TuiStep::Quit
                    } else {
                        TuiStep::Continue
                    }
                },
                None => TuiStep::Continue,
            }
        } else if key == Key::Esc {
            self.state = TuiState::MainMenu;
            self.main_menu = Some(0);
            TuiStep::Continue
        } else {
            TuiStep::Continue
        }
    }

    fn handle_recipe_action_key(&mut self, k: &KeyPress) -> (r: TuiStep)
        ensures
            recipe_action_step(*old(self), *final(self), *k, r),
    {
        let key = k.key;
        let n = self.recipes.len();
        if n == 0 {
            if key == Key::Esc || key == Key::Enter {
                self.state = TuiState::RecipesMenu;
            }
            TuiStep::Continue
        } else if key == Key::Down || key == Key::Char('j') {
            self.recipe_action = next_index(self.recipe_action, n);
            TuiStep::Continue
        } else if key == Key::Up || key == Key::Char('k') {
            self.recipe_action = prev_index(self.recipe_action, n);
            TuiStep::Continue
        } else if key == Key::Enter || key == Key::Char(' ') {
            match self.recipe_action {
                Some(i) => {
                    if i < n {
                        match find_recipe(&self.recipes, self.recipes[i].name.as_str()) {
                            Some(j) => {
                                let rec = self.recipes[j].copy();
                                TuiStep::RunRecipeOrFail(rec)
                            },
                            None => TuiStep::Continue,
                        }
                    } else {
                        TuiStep::Continue
                    }
                },
                None => TuiStep::Continue,
            }
        } else if key == Key::Esc {
            self.state = TuiState::RecipesMenu;
            self.recipes_menu = Some(0);
            TuiStep::Continue
        } else {
            TuiStep::Continue
        }
    }

    fn handle_picker_key(&mut self, k: &KeyPress) -> (r: TuiStep)
        requires
            old(self).file_picker.event_safe(*k),
        ensures
            picker_screen_step(*old(self), *final(self), *k, r),
    {
        let p = self.file_picker.handle_event(k);
        if matches!(p, PickerStep::Cancelled) {
            self.state = TuiState::MainMenu;
        }
        TuiStep::Picker(p)
    }
}

impl TuiApp {
    /// Replaces the recipes by what saving the form gives (see `saved_recipes`), then
    /// recomputes the matches and shows the recipe under the cursor.
    fn save_current_recipe_form(&mut self)
        requires
            old(self).recipe_form.wf(),
        ensures
            recipes_rewritten(
                *old(self),
                *final(self),
                saved_recipes(old(self).recipes@, old(self).recipe_edit_target, old(self).recipe_form),
            ),
            final(self).recipe_form.wf(),
    {
        let rec = Recipe {
            name: self.recipe_form.fields[0].clone(),
            description: self.recipe_form.fields[1].clone(),
            command: self.recipe_form.fields[2].clone(),
        };
        assert(rec == form_recipe(self.recipe_form));
        match self.recipe_edit_target {
            Some(i) => {
                if i < self.recipes.len() {
                    self.recipes.set(i, rec);
                }
            },
            None => {
                self.recipes.push(rec);
            },
        }
        self.refresh_recipe_matches();
        self.sync_form_to_selected();
    }

    /// Moves the recipes cursor to `cur` and shows the recipe there.
    fn move_recipes_cursor(&mut self, cur: Option<usize>)
        requires
            old(self).recipe_form.wf(),
        ensures
            moved_and_synced(*old(self), *final(self), cur),
            final(self).recipe_form.wf(),
    {
        self.recipes_menu = cur;
        self.sync_form_to_selected();
    }

    /// The listed recipe under the cursor, to be run.
    fn run_selected_recipe(&self) -> (r: TuiStep)
        ensures
            run_selected(*self, *self, r),
    {
        match self.recipes_menu {
            Some(i) => {
                let vis = self.visible_recipe_indices();
                if i < vis.len() {
                    let j = vis[i];
                    proof {
                        assert(self.visible_recipes().contains(j));
                    }
                    TuiStep::RunRecipe(self.recipes[j].copy())
                } else {
                    TuiStep::Continue
                }
            },
            None => TuiStep::Continue,
        }
    }

    fn handle_browse_recipes_key(&mut self, k: &KeyPress) -> (r: TuiStep)
        requires
            old(self).recipe_form.wf(),
            old(self).recipe_mode == RecipeMode::Browse,
        ensures
            browse_recipes_step(*old(self), *final(self), *k, r),
            final(self).recipe_form.wf(),
    {
        let key = k.key;
        let n = self.visible_recipe_indices().len();
        if key == Key::Up || key == Key::Char('k') {
            let cur = prev_index(self.recipes_menu, n);
            self.move_recipes_cursor(cur);
            TuiStep::Continue
        } else if key == Key::Down || key == Key::Char('j') {
            let cur = next_index(self.recipes_menu, n);
            self.move_recipes_cursor(cur);
            TuiStep::Continue
        } else if key == Key::Enter || key == Key::Char('r') {
            self.run_selected_recipe()
        } else if key == Key::Char('e') {
            match self.recipes_menu {
                Some(i) => {
                    self.sync_form_to_selected();
                    self.recipe_edit_target = Some(i);
                    self.recipe_mode = RecipeMode::Edit;
                },
                None => {},
            }
            TuiStep::Continue
        } else if key == Key::Char('a') {
            self.recipe_form.clear();
            self.recipe_edit_target = None;
            self.recipe_mode = RecipeMode::Edit;
            TuiStep::Continue
        } else if key == Key::Char('d') {
            match self.recipes_menu {
                Some(i) => {
                    let vis = self.visible_recipe_indices();
                    if i < vis.len() {
                        let j = vis[i];
                        proof {
                            assert(self.visible_recipes().contains(j));
                        }
                        let name = self.recipes[j].name.clone();
                        remove_named(&mut self.recipes, name.as_str());
                        self.refresh_recipe_matches();
                        self.sync_form_to_selected();
                        TuiStep::SaveRecipes
                    } else {
                        TuiStep::Continue
                    }
                },
                None => TuiStep::Continue,
            }
        } else if key == Key::Esc {
            self.state = TuiState::MainMenu;
            self.main_menu = Some(0);
            TuiStep::Continue
        } else {
            TuiStep::Continue
        }
    }

    fn handle_edit_recipe_key(&mut self, k: &KeyPress) -> (r: TuiStep)
        requires
            old(self).recipe_form.wf(),
            old(self).recipe_mode == RecipeMode::Edit,
            recipes_key_safe(*old(self), *k),
            k.press,
        ensures
            edit_recipe_step(*old(self), *final(self), *k, r),
            final(self).recipe_form.wf(),
    {
        match k.key {
            Key::Up => {
                self.recipe_form.active_field = if self.recipe_form.active_field == 0 {
                    2
                } else {
                    self.recipe_form.active_field - 1
                };
                TuiStep::Continue
            },
            Key::Down => {
                self.recipe_form.active_field = (self.recipe_form.active_field + 1) % 3;
                TuiStep::Continue
            },
            Key::Left => {
                self.recipe_form.step_cursor(-1);
                TuiStep::Continue
            },
            Key::Right => {
                self.recipe_form.step_cursor(1);
                TuiStep::Continue
            },
            Key::Backspace => {
                self.recipe_form.delete_before_cursor();
                TuiStep::Continue
            },
            Key::Delete => {
                self.recipe_form.delete_at_cursor();
                TuiStep::Continue
            },
            Key::Char(c) => {
                if !is_control(c) {
                    self.recipe_form.insert_char(c);
                }
                TuiStep::Continue
            },
            Key::Enter => {
                self.save_current_recipe_form();
                self.recipe_mode = RecipeMode::Browse;
                TuiStep::SaveRecipes
            },
            _ => TuiStep::Continue,
        }
    }

    fn handle_fuzzy_recipes_key(&mut self, k: &KeyPress) -> (r: TuiStep)
        requires
            old(self).recipe_form.wf(),
            old(self).recipe_mode == RecipeMode::Fuzzy,
            recipes_key_safe(*old(self), *k),
            k.press,
            k.key != Key::Char('f'),
        ensures
            fuzzy_recipes_step(*old(self), *final(self), *k, r),
            final(self).recipe_form.wf(),
    {
        match k.key {
            Key::Backspace => {
                self.recipe_search.backspace();
                self.refresh_recipe_matches();
                TuiStep::Continue
            },
            Key::Delete => {
                self.recipe_search.delete();
                self.refresh_recipe_matches();
                TuiStep::Continue
            },
            Key::Left => {
                if !k.ctrl {
                    self.recipe_search.move_cursor_left();
                }
                TuiStep::Continue
            },
            Key::Right => {
                if !k.ctrl {
                    self.recipe_search.move_cursor_right();
                }
                TuiStep::Continue
            },
            Key::Char(c) => {
                if !is_control(c) {
                    self.recipe_search.handle_input(c);
                    self.refresh_recipe_matches();
                }
                TuiStep::Continue
            },
            Key::Up => {
                let n = self.visible_recipe_indices().len();
                let cur = prev_index(self.recipes_menu, n);
                self.move_recipes_cursor(cur);
                TuiStep::Continue
            },
            Key::Down => {
                let n = self.visible_recipe_indices().len();
                let cur = next_index(self.recipes_menu, n);
                self.move_recipes_cursor(cur);
                TuiStep::Continue
            },
            Key::Enter => self.run_selected_recipe(),
            _ => TuiStep::Continue,
        }
    }

    fn handle_recipes_key(&mut self, k: &KeyPress) -> (r: TuiStep)
        requires
            old(self).recipe_form.wf(),
            recipes_key_safe(*old(self), *k),
        ensures
            recipes_step(*old(self), *final(self), *k, r),
            final(self).recipe_form.wf(),
    {
        let key = k.key;
        if !k.press {
            return TuiStep::Continue;
        }
        if self.recipe_mode == RecipeMode::Browse && (key == Key::Char('f') || key == Key::Char('F')
            || key == Key::Tab) {
            self.recipe_mode = RecipeMode::Fuzzy;
            self.recipe_search.pattern = String::new();
            self.recipe_search.cursor = 0;
            self.recipes_menu = Some(0);
            return TuiStep::Continue;
        }
        if self.recipe_mode == RecipeMode::Fuzzy && (key == Key::Esc || key == Key::Tab || key
            == Key::Char('f')) {
            self.recipe_mode = RecipeMode::Browse;
            self.recipe_search.pattern = String::new();
            self.refresh_recipe_matches();
            self.recipes_menu = Some(0);
            return TuiStep::Continue;
        }
        if self.recipe_mode == RecipeMode::Edit && key == Key::Esc {
            self.recipe_mode = RecipeMode::Browse;
            self.sync_form_to_selected();
            return TuiStep::Continue;
        }
        match self.recipe_mode {
            RecipeMode::Browse => self.handle_browse_recipes_key(k),
            RecipeMode::Edit => self.handle_edit_recipe_key(k),
            RecipeMode::Fuzzy => self.handle_fuzzy_recipes_key(k),
        }
    }
}

/// The parameters that bundle exactly the picked `files`: no search paths or filters,
/// hidden files as configured, relative headers with separators, no output file,
/// copying on, line numbers as chosen, padding on.
pub open spec fn selection_params(p: ClumpParams, files: Seq<String>, include_hidden: bool, line_numbers: bool) -> bool {
    &&& p.search_paths@.len() == 0
    &&& p.only_patterns@.len() == 0
    &&& p.exclude_patterns@.len() == 0
    &&& p.exclude_dirs@.len() == 0
    &&& p.exclude_exts@.len() == 0
    &&& p.max_depth is None
    &&& p.include_hidden == include_hidden
    &&& p.header_style@ == "relative"@
    &&& p.separator
    &&& p.output_file is None
    &&& !p.nocopy
    &&& p.selected_files matches Some(v) && v@ == files
    &&& p.line_numbers == line_numbers
    &&& p.padding
}

/// Whether the interface can handle key `k` (see `recipes_key_safe` and
/// `FilePicker::event_safe`); its form must have its three fields.
pub open spec fn key_safe(o: TuiApp, k: KeyPress) -> bool {
    &&& o.recipe_form.wf()
    &&& o.state == TuiState::FilePicker ==> o.file_picker.event_safe(k)
    &&& o.state == TuiState::RecipesMenu ==> recipes_key_safe(o, k)
}

impl TuiApp {
    /// Whether the interface can handle key `k` (see `key_safe`).
    pub fn key_is_safe(&self, k: &KeyPress) -> (r: bool)
        ensures
            r == key_safe(*self, *k),
    {
        if !(self.recipe_form.fields.len() == 3 && self.recipe_form.cursors.len() == 3
            && self.recipe_form.active_field < 3) {
            return false;
        }
        match self.state {
            TuiState::FilePicker => self.file_picker.event_is_safe(k),
            TuiState::RecipesMenu => {
                if !k.press {
                    return true;
                }
                match self.recipe_mode {
                    RecipeMode::Fuzzy => {
                        let p = self.recipe_search.pattern.as_str();
                        let c = self.recipe_search.cursor;
                        match k.key {
                            Key::Backspace => c == 0 || (p.is_char_boundary(c - 1) && c - 1 < p.len()),
                            Key::Delete => !(c < p.len()) || p.is_char_boundary(c),
                            Key::Char(ch) => ch == 'f' || is_control(ch) || (p.is_char_boundary(c)
                                && c < usize::MAX),
                            _ => true,
                        }
                    },
                    RecipeMode::Edit => {
                        let f = self.recipe_form.active_field;
                        let cur = self.recipe_form.cursors[f];
                        let len = chars_of(self.recipe_form.fields[f].as_str()).len();
                        match k.key {
                            Key::Right => cur < usize::MAX,
                            Key::Backspace => cur <= len,
                            Key::Char(ch) => is_control(ch) || (cur <= len && cur < usize::MAX),
                            _ => true,
                        }
                    },
                    RecipeMode::Browse => true,
                }
            },
            _ => true,
        }
    }

    /// Reacts to a key on the screen being shown (see `key_step`); the caller then does
    /// what the answer asks.
    pub fn handle_key(&mut self, k: &KeyPress) -> (r: TuiStep)
        requires
            key_safe(*old(self), *k),
        ensures
            key_step(*old(self), *final(self), *k, r),
            final(self).recipe_form.wf(),
    {
        match self.state {
            TuiState::MainMenu => self.handle_main_menu_key(k),
            TuiState::FilePicker => self.handle_picker_key(k),
            TuiState::RecipesMenu => self.handle_recipes_key(k),
            TuiState::RecipeAction => self.handle_recipe_action_key(k),
            TuiState::OutputOptions => self.handle_output_key(k),
            TuiState::ConfigEditor => self.handle_config_key(k),
            TuiState::Help => self.handle_help_key(k),
        }
    }

    /// Takes the files the picker confirmed: with none, back to the main menu; otherwise
    /// the parameters that bundle them (see `selection_params`) become the active ones
    /// and are handed back to be run.
    pub fn picker_confirmed(&mut self, files: Vec<String>) -> (r: Option<ClumpParams>)
        ensures
            files@.len() == 0 ==> r is None && *final(self) == (TuiApp {
                state: TuiState::MainMenu,
                ..*old(self)
            }),
            files@.len() > 0 ==> (r matches Some(p) && selection_params(
                p,
                files@,
                old(self).app_config.files.include_hidden,
                old(self).line_numbers,
            ) && (final(self).active_params matches Some(q) && same_params(q, p))),
            files@.len() > 0 ==> *final(self) == (TuiApp {
                active_params: final(self).active_params,
                ..*old(self)
            }),
    {
        if files.len() == 0 {
            self.state = TuiState::MainMenu;
            return None;
        }
        let p = ClumpParams {
            search_paths: Vec::new(),
            only_patterns: Vec::new(),
            exclude_patterns: Vec::new(),
            exclude_dirs: Vec::new(),
            exclude_exts: Vec::new(),
            max_depth: None,
            include_hidden: self.app_config.files.include_hidden,
            header_style: copy_str("relative"),
            separator: true,
            output_file: None,
            nocopy: false,
            selected_files: Some(files),
            line_numbers: self.line_numbers,
            padding: true,
        };
        self.active_params = Some(p.copy());
        Some(p)
    }

    /// Takes parameters made from a listed recipe's command: hidden files as
    /// configured, line numbers as chosen, padding on; they become the active ones and
    /// are handed back to be run.
    pub fn recipe_params_ready(&mut self, params: ClumpParams) -> (r: ClumpParams)
        ensures
            r == (ClumpParams {
                include_hidden: old(self).app_config.files.include_hidden,
                line_numbers: old(self).line_numbers,
                padding: true,
                ..params
            }),
            final(self).active_params matches Some(q) && same_params(q, r),
            *final(self) == (TuiApp { active_params: final(self).active_params, ..*old(self) }),
    {
        let mut p = params;
        p.include_hidden = self.app_config.files.include_hidden;
        p.line_numbers = self.line_numbers;
        p.padding = true;
        self.active_params = Some(p.copy());
        p
    }

    /// Takes parameters made from a recipe picked on the recipe list screen: hidden files
    /// as configured.
    pub fn recipe_action_params(&self, params: ClumpParams) -> (r: ClumpParams)
        ensures
            r == (ClumpParams { include_hidden: self.app_config.files.include_hidden, ..params }),
    {
        let mut p = params;
        p.include_hidden = self.app_config.files.include_hidden;
        p
    }

    /// Shows a freshly made output: it becomes the output, and the output screen opens
    /// on its first entry.
    pub fn show_output(&mut self, output: String)
        ensures
            *final(self) == (TuiApp {
                output_text: Some(output),
                state: TuiState::OutputOptions,
                output_menu: Some(0usize),
                ..*old(self)
            }),
    {
        self.output_text = Some(output);
        self.state = TuiState::OutputOptions;
        self.output_menu = Some(0);
    }

    /// Replaces the output (after the line numbers were toggled).
    pub fn set_output(&mut self, output: String)
        ensures
            *final(self) == (TuiApp { output_text: Some(output), ..*old(self) }),
    {
        self.output_text = Some(output);
    }

    /// Keeps an output to print once the interface is left.
    pub fn set_pending_print(&mut self, output: String)
        ensures
            *final(self) == (TuiApp { pending_print: Some(output), ..*old(self) }),
    {
        self.pending_print = Some(output);
    }
}

/// The key help shown at the bottom of each screen.
pub open spec fn footer(o: TuiApp) -> Seq<char> {
    match o.state {
        TuiState::MainMenu => "↑↓/jk: Navigate  Enter/Space: Select  Esc/Q: Quit"@,
        TuiState::FilePicker => {
            let fp = o.file_picker;
            let nav = if fp.fuzzy_active { "↑↓: Nav  Ctrl+←/→: Dir"@ } else { "↑↓/jk: Nav  ←h/→l: Dir"@ };
            let period = if fp.show_hidden { ".: Hide hidden"@ } else { ".: Show hidden"@ };
            let mode = if fp.fuzzy_active { "Tab/Esc: Exit Find"@ } else { "Tab/f: Find"@ };
            nav + "  Space: Toggle  Ctrl+.  Enter: Confirm  "@ + period + "  "@ + mode
        },
        TuiState::RecipesMenu => match o.recipe_mode {
            RecipeMode::Browse => "↑↓/jk: Nav  r: Run  e: Edit  a: Add  d: Del  f/Tab: Find  Esc: Back"@,
            RecipeMode::Edit => "↑↓: Switch Field  ←→: Cursor  Enter: Save  Esc: Cancel"@,
            RecipeMode::Fuzzy => "↑↓/jk: Nav  r: Run  ←→: Cursor  Esc/f: Exit Find"@,
        },
        TuiState::RecipeAction => "↑↓/jk: Select  Enter/Space: Run  Esc: Back"@,
        TuiState::OutputOptions => "↑↓/jk: Navigate  Enter/Space: Choose  l: Line# "@ + (if o.line_numbers {
            "ON"@
        } else {
            "OFF"@
        }) + "  Esc: Back"@,
        TuiState::ConfigEditor => "↑↓/jk: Navigate  Enter: Toggle  Esc: Back"@,
        TuiState::Help => "↑↓/jk: Scroll  Esc: Back"@,
    }
}

impl TuiApp {
    /// The key help shown at the bottom of the screen (see `footer`).
    pub fn footer_text(&self) -> (r: String)
        ensures
            r@ == footer(*self),
    {
        match self.state {
            TuiState::MainMenu => copy_str("↑↓/jk: Navigate  Enter/Space: Select  Esc/Q: Quit"),
            TuiState::FilePicker => {
                let fp = &self.file_picker;
                let mut out = if fp.fuzzy_active {
                    copy_str("↑↓: Nav  Ctrl+←/→: Dir")
                } else {
                    copy_str("↑↓/jk: Nav  ←h/→l: Dir")
                };
                push_str(&mut out, "  Space: Toggle  Ctrl+.  Enter: Confirm  ");
                if fp.show_hidden {
                    push_str(&mut out, ".: Hide hidden");
                } else {
                    push_str(&mut out, ".: Show hidden");
                }
                push_str(&mut out, "  ");
                if fp.fuzzy_active {
                    push_str(&mut out, "Tab/Esc: Exit Find");
                } else {
                    push_str(&mut out, "Tab/f: Find");
                }
                out
            },
            TuiState::RecipesMenu => match self.recipe_mode {
                RecipeMode::Browse => copy_str(
                    "↑↓/jk: Nav  r: Run  e: Edit  a: Add  d: Del  f/Tab: Find  Esc: Back",
                ),
                RecipeMode::Edit => copy_str("↑↓: Switch Field  ←→: Cursor  Enter: Save  Esc: Cancel"),
                RecipeMode::Fuzzy => copy_str("↑↓/jk: Nav  r: Run  ←→: Cursor  Esc/f: Exit Find"),
            },
            TuiState::RecipeAction => copy_str("↑↓/jk: Select  Enter/Space: Run  Esc: Back"),
            TuiState::OutputOptions => {
                let mut out = copy_str("↑↓/jk: Navigate  Enter/Space: Choose  l: Line# ");
                if self.line_numbers {
                    push_str(&mut out, "ON");
                } else {
                    push_str(&mut out, "OFF");
                }
                push_str(&mut out, "  Esc: Back");
                out
            },
            TuiState::ConfigEditor => copy_str("↑↓/jk: Navigate  Enter: Toggle  Esc: Back"),
            TuiState::Help => copy_str("↑↓/jk: Scroll  Esc: Back"),
        }
    }
}

/// The labels of the configuration screen's entries for a configuration.
pub open spec fn config_labels_spec(c: Config) -> Seq<Seq<char>> {
    seq![
        match c.sorting {
            SortingMode::FilesFirst => "\u{1F4C4} Files First"@,
            SortingMode::DirsFirst => "\u{1F4C1} Dirs First"@,
            SortingMode::Flat => "\u{1F4CA} Flat (Alphabetical)"@,
        },
        if c.files.include_hidden {
            "\u{1F441}\u{FE0F}  Show Hidden Files"@
        } else {
            "\u{1F648} Hide Hidden Files"@
        },
        "\u{1F4BE} Save & Return"@,
    ]
}

/// The entries of the output screen: an identifier and a label each.
pub fn output_menu_items() -> (r: Vec<(&'static str, &'static str)>)
    ensures
        r@.len() == 5,
        r@[0].0@ == "clipboard"@,
        r@[1].0@ == "terminal"@,
        r@[2].0@ == "terminal_ln"@,
        r@[3].0@ == "file"@,
        r@[4].0@ == "back"@,
        r@[0].1@ == "\u{1F4CB} Copy To Clipboard"@,
        r@[1].1@ == "\u{1F5A8}\u{FE0F} Print To Terminal"@,
        r@[2].1@ == "\u{1F5A8}\u{FE0F} Print To Terminal (+ Line Numbers)"@,
        r@[3].1@ == "\u{1F4BE} Save To File"@,
        r@[4].1@ == "\u{2190} Back"@,
{
    let mut v: Vec<(&'static str, &'static str)> = Vec::new();
    v.push(("clipboard", "\u{1F4CB} Copy To Clipboard"));
    v.push(("terminal", "\u{1F5A8}\u{FE0F} Print To Terminal"));
    v.push(("terminal_ln", "\u{1F5A8}\u{FE0F} Print To Terminal (+ Line Numbers)"));
    v.push(("file", "\u{1F4BE} Save To File"));
    v.push(("back", "\u{2190} Back"));
    v
}

/// Where the parts of the screen go: the content below the banner, the footer on the
/// last line, and, on the recipes screen, the list above the recipe form.
#[derive(Debug, Clone, Copy, PartialEq, Eq, Structural)]
pub struct ScreenLayout {
    pub content_y: u16,
    pub content_h: u16,
    pub footer_y: u16,
    pub list_h: u16,
    pub form_h: u16,
}

/// The height left for the content: the screen less the banner and the footer line.
pub open spec fn content_height(height: u16, banner_h: u16) -> int {
    if height > banner_h + 1 {
        height - banner_h - 1
    } else {
        0
    }
}

/// The height of the recipe form: two fifths of the content, at least seven lines.
pub open spec fn form_height(content_h: int) -> int {
    if content_h * 2 / 5 > 7 {
        content_h * 2 / 5
    } else {
        7
    }
}

/// Lays the screen out for a terminal `height` lines high under a banner `banner_h`
/// lines high; `with_form` on the recipes screen, where the form takes its share of the
/// content (which must then hold at least the form's seven lines).
pub fn screen_layout(height: u16, banner_h: u16, with_form: bool) -> (r: ScreenLayout)
    requires
        banner_h < u16::MAX,
        with_form ==> 7 <= content_height(height, banner_h) && content_height(height, banner_h) * 2
            <= u16::MAX,
    ensures
        r.content_y == banner_h,
        r.content_h == content_height(height, banner_h),
        r.footer_y == if height > 0 { height - 1 } else { 0 },
        with_form ==> r.form_h == form_height(r.content_h as int) && r.list_h == r.content_h - r.form_h,
        !with_form ==> r.form_h == 0 && r.list_h == r.content_h,
{
    let reserved: u16 = banner_h + 1;
    let content_h: u16 = if height > reserved {
        height - reserved
    } else {
        0
    };
    let footer_y: u16 = if height > 0 {
        height - 1
    } else {
        0
    };
    if with_form {
        let share: u16 = content_h * 2 / 5;
        let form_h: u16 = if share > 7 {
            share
        } else {
            7
        };
        assert(form_h <= content_h) by (nonlinear_arith)
            requires
                7 <= content_h,
                share == content_h * 2 / 5,
                form_h == if share > 7 { share } else { 7 },
        ;
        ScreenLayout { content_y: banner_h, content_h, footer_y, list_h: content_h - form_h, form_h }
    } else {
        ScreenLayout { content_y: banner_h, content_h, footer_y, list_h: content_h, form_h: 0 }
    }
}

impl TuiApp {
    /// The labels of the configuration screen's entries (see `config_labels_spec`).
    pub fn config_labels(&self) -> (r: Vec<&'static str>)
        ensures
            r@.len() == 3,
            r@[0]@ == config_labels_spec(self.app_config)[0],
            r@[1]@ == config_labels_spec(self.app_config)[1],
            r@[2]@ == config_labels_spec(self.app_config)[2],
    {
        let mut v: Vec<&'static str> = Vec::new();
        v.push(
            match self.app_config.sorting {
                SortingMode::FilesFirst => "\u{1F4C4} Files First",
                SortingMode::DirsFirst => "\u{1F4C1} Dirs First",
                SortingMode::Flat => "\u{1F4CA} Flat (Alphabetical)",
            },
        );
        v.push(
            if self.app_config.files.include_hidden {
                "\u{1F441}\u{FE0F}  Show Hidden Files"
            } else {
                "\u{1F648} Hide Hidden Files"
            },
        );
        v.push("\u{1F4BE} Save & Return");
        v
    }
}

/// Moving down a wrapping menu and then up again comes back to the same entry, and so
/// does moving up and then down.
pub proof fn lemma_menu_down_then_up(i: usize, n: nat)
    requires
        i < n <= usize::MAX,
    ensures
        wrap_prev(wrap_next(Some(i), n), n) == Some(i),
        wrap_next(wrap_prev(Some(i), n), n) == Some(i),
{
    let ii = i as int;
    let nn = n as int;
    if ii + 1 < nn {
        assert((ii + 1) % nn == ii + 1) by (nonlinear_arith)
            requires
                0 <= ii + 1 < nn,
        ;
    } else {
        assert((ii + 1) % nn == 0) by (nonlinear_arith)
            requires
                ii + 1 == nn,
                nn > 0,
        ;
    }
    if ii == 0 {
        assert((nn - 1 + 1) % nn == 0) by (nonlinear_arith)
            requires
                nn > 0,
        ;
    } else {
        assert((ii - 1 + 1) % nn == ii) by (nonlinear_arith)
            requires
                0 < ii < nn,
        ;
    }
}

/// On the main menu, Down and then Up give back the interface as it was, whichever of
/// the five entries the cursor was on.
pub proof fn lemma_main_menu_down_up(o: TuiApp, m: TuiApp, f: TuiApp, r1: TuiStep, r2: TuiStep, press: bool, ctrl: bool)
    requires
        o.main_menu matches Some(i) && i < 5,
        main_menu_step(o, m, KeyPress { key: Key::Down, ctrl, press }, r1),
        main_menu_step(m, f, KeyPress { key: Key::Up, ctrl, press }, r2),
    ensures
        f == o,
        r1 is Continue && r2 is Continue,
{
    lemma_menu_down_then_up(o.main_menu->0, 5);
}

/// On the configuration screen, three presses of Enter or Space on the sorting entry
/// cycle the sorting mode (files first, directories first, flat) and bring it, and the
/// whole interface, back to where it was; the interface stays on the screen.
pub proof fn lemma_sorting_cycle(o: TuiApp, a: TuiApp, b: TuiApp, f: TuiApp, k: KeyPress, r1: TuiStep, r2: TuiStep, r3: TuiStep)
    requires
        o.state == TuiState::ConfigEditor,
        o.config_menu == Some(0usize),
        k.key == Key::Enter || k.key == Key::Char(' '),
        key_step(o, a, k, r1),
        key_step(a, b, k, r2),
        key_step(b, f, k, r3),
    ensures
        a.app_config.sorting == sorting_after(o.app_config.sorting),
        b.app_config.sorting == sorting_after(a.app_config.sorting),
        a.state == TuiState::ConfigEditor && b.state == TuiState::ConfigEditor,
        f == o,
        r1 is Continue && r2 is Continue && r3 is Continue,
{
}

/// On the configuration screen, a press of Enter or Space on the hidden-files entry
/// flips whether hidden files are included, and a second press brings the interface
/// back to where it was.
pub proof fn lemma_hidden_toggle_twice(o: TuiApp, a: TuiApp, f: TuiApp, k: KeyPress, r1: TuiStep, r2: TuiStep)
    requires
        o.state == TuiState::ConfigEditor,
        o.config_menu == Some(1usize),
        k.key == Key::Enter || k.key == Key::Char(' '),
        key_step(o, a, k, r1),
        key_step(a, f, k, r2),
    ensures
        a.app_config.files.include_hidden == !o.app_config.files.include_hidden,
        f == o,
        r1 is Continue && r2 is Continue,
{
    assert(f.app_config.files == o.app_config.files);
}

/// On the configuration screen, a press of Enter or Space on the last entry goes back to
/// the main menu, with the settings as they are, and the interface goes on.
pub proof fn lemma_config_back(o: TuiApp, a: TuiApp, k: KeyPress, r: TuiStep)
    requires
        o.state == TuiState::ConfigEditor,
        o.config_menu == Some(2usize),
        k.key == Key::Enter || k.key == Key::Char(' '),
        key_step(o, a, k, r),
    ensures
        a.state == TuiState::MainMenu,
        a.app_config == o.app_config,
        r is Continue,
{
}

/// On the recipes screen, starting a search (Tab) and leaving it (Esc) brings back the
/// browsing list of every recipe with an empty pattern, the cursor on the first recipe,
/// and the recipes and form untouched.
pub proof fn lemma_search_round_trip(o: TuiApp, a: TuiApp, f: TuiApp, r1: TuiStep, r2: TuiStep, ctrl: bool)
    requires
        o.recipe_mode == RecipeMode::Browse,
        recipes_step(o, a, KeyPress { key: Key::Tab, ctrl, press: true }, r1),
        recipes_step(a, f, KeyPress { key: Key::Esc, ctrl, press: true }, r2),
    ensures
        f.recipe_mode == RecipeMode::Browse,
        f.recipe_search.pattern@.len() == 0,
        f.recipe_search.matches@ == all_indices(o.recipes@.len()),
        f.visible_recipes() == all_indices(o.recipes@.len()),
        f.recipes == o.recipes,
        f.recipe_form == o.recipe_form,
        f.recipes_menu == Some(0usize),
        f.state == o.state,
{
}

} // verus!
