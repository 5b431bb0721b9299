use clump::recipe::shell_split;

#[test]
fn test_shell_split_simple() {
    assert_eq!(shell_split("foo bar baz"), vec!["foo", "bar", "baz"]);
}

#[test]
fn test_shell_split_quoted() {
    assert_eq!(
        shell_split(r#"foo "bar baz" qux"#),
        vec!["foo", "bar baz", "qux"]
    );
}

#[test]
fn test_shell_split_single_quoted() {
    assert_eq!(
        shell_split("foo 'bar baz' qux"),
        vec!["foo", "bar baz", "qux"]
    );
}

#[test]
fn test_shell_split_escape() {
    assert_eq!(
        shell_split(r#"foo "bar\"baz" qux"#),
        vec!["foo", "bar\"baz", "qux"]
    );
}

use clump::recipe::{
    add_recipe, default_recipes, delete_recipe, find_recipe, recipe_summary, recipes_dir_in,
    recipes_path_in, remove_named, Recipe, RecipeError, RecipeListError,
};

fn recipe(name: &str, desc: &str, cmd: &str) -> Recipe {
    Recipe { name: name.to_string(), description: desc.to_string(), command: cmd.to_string() }
}

#[test]
fn shell_split_tabs_and_runs_of_blanks() {
    assert_eq!(shell_split("  a\t\tb   c  "), vec!["a", "b", "c"]);
    assert!(shell_split("").is_empty());
    assert!(shell_split("   \t ").is_empty());
}

#[test]
fn shell_split_quotes_of_the_other_kind_are_literal() {
    assert_eq!(shell_split(r#"say "it's" 'a "b"'"#), vec!["say", "it's", "a \"b\""]);
    // A backslash outside double quotes is an ordinary character.
    assert_eq!(shell_split(r#"a\b c"#), vec!["a\\b", "c"]);
    // An empty quoted word is dropped, and an unclosed quote runs to the end.
    assert_eq!(shell_split(r#"x "" 'open quote"#), vec!["x", "open quote"]);
}

#[test]
fn shell_split_joined_words_round_trip() {
    let words = vec!["clump", "src", "--only", ".rs", "-o", "out.txt"];
    assert_eq!(shell_split(&words.join(" ")), words);
}

#[test]
fn recipe_new_is_empty() {
    let r = Recipe::new("docs");
    assert_eq!(r.name, "docs");
    assert_eq!(r.description, "");
    assert_eq!(r.command, "");
}

#[test]
fn command_args_prefixes_program_name() {
    let r = recipe("rs", "", "src --only .rs");
    assert_eq!(r.command_args().unwrap(), vec!["clump", "src", "--only", ".rs"]);
}

#[test]
fn command_args_errors() {
    let blank = recipe("blank", "", "   ");
    assert_eq!(blank.command_args(), Err(RecipeError::NoCommand("blank".to_string())));
    let quotes = recipe("quotes", "", "\"\" ''");
    assert_eq!(quotes.command_args(), Err(RecipeError::EmptyCommand("quotes".to_string())));
}

#[test]
fn default_recipes_are_named() {
    let d = default_recipes();
    assert!(!d.is_empty());
    for r in &d {
        assert!(!r.name.is_empty());
        assert!(r.command_args().is_ok());
    }
}

#[test]
fn find_recipe_gives_first_of_name() {
    let rs = vec![recipe("a", "1", ""), recipe("b", "2", ""), recipe("a", "3", "")];
    assert_eq!(find_recipe(&rs, "a"), Some(0));
    assert_eq!(find_recipe(&rs, "b"), Some(1));
    assert_eq!(find_recipe(&rs, "c"), None);
}

#[test]
fn remove_named_removes_every_recipe_of_the_name() {
    let mut rs = vec![recipe("a", "1", ""), recipe("b", "2", ""), recipe("a", "3", "")];
    remove_named(&mut rs, "a");
    assert_eq!(rs.len(), 1);
    assert_eq!(rs[0].name, "b");
}

#[test]
fn add_then_delete_restores_recipes() {
    let mut rs = vec![recipe("a", "1", "x"), recipe("b", "2", "y")];
    assert_eq!(add_recipe(&mut rs, "c"), Ok(()));
    assert_eq!(rs.len(), 3);
    assert_eq!(rs[2].name, "c");
    assert_eq!(rs[2].command, "");
    assert_eq!(delete_recipe(&mut rs, "c"), Ok(()));
    assert_eq!(rs.len(), 2);
    assert_eq!(rs[0].name, "a");
    assert_eq!(rs[1].name, "b");
}

#[test]
fn add_and_delete_errors() {
    let mut rs = vec![recipe("a", "1", "x")];
    assert_eq!(add_recipe(&mut rs, "a"), Err(RecipeListError::AlreadyExists));
    assert_eq!(rs.len(), 1);
    assert_eq!(delete_recipe(&mut rs, "zzz"), Err(RecipeListError::NotFound));
    assert_eq!(rs.len(), 1);
}

#[test]
fn recipes_paths() {
    assert_eq!(recipes_dir_in(&Some("/home/u/.config".to_string())), "/home/u/.config/clump");
    assert_eq!(recipes_path_in(&Some("/home/u/.config".to_string())), "/home/u/.config/clump/recipes.ron");
    assert_eq!(recipes_path_in(&None), ".config/clump/recipes.ron");
}

#[test]
fn recipe_summaries() {
    assert_eq!(recipe_summary(&recipe("a", "", "x")), "a");
    assert_eq!(recipe_summary(&recipe("a", "docs", "x")), "a - docs");
}

fn empty_cli() -> clump::cli::Cli {
    clump::cli::Cli {
        paths: vec![],
        output: Some("out.txt".to_string()),
        only: vec![],
        exclude: vec![],
        exclude_dir: vec![],
        exclude_ext: vec![],
        level: Some(2),
        shallow: false,
        header_style: clump::cli::HeaderStyle::Relative,
        separator: false,
        include_hidden: false,
        literal: false,
        nocopy: false,
        interactive: false,
        line_numbers: false,
        no_padding: false,
        command: None,
    }
}

#[test]
fn recipe_to_params_outcomes() {
    let blank = recipe("blank", "", "   ");
    assert!(matches!(
        blank.to_params(Ok(empty_cli())),
        Err(RecipeError::NoCommand(n)) if n == "blank"
    ));
    let quotes = recipe("quotes", "", "''");
    assert!(matches!(
        quotes.to_params(Ok(empty_cli())),
        Err(RecipeError::EmptyCommand(n)) if n == "quotes"
    ));
    let bad = recipe("bad", "", "--bogus");
    assert!(matches!(
        bad.to_params(Err("unexpected argument '--bogus'".to_string())),
        Err(RecipeError::InvalidCommand(n, why)) if n == "bad" && why == "unexpected argument '--bogus'"
    ));
    let good = recipe("good", "", "-o out.txt -L 2");
    match good.to_params(Ok(empty_cli())) {
        Ok(p) => {
            assert_eq!(p.search_paths, vec![".".to_string()]);
            assert_eq!(p.max_depth, Some(2));
            assert_eq!(p.output_file, Some("out.txt".to_string()));
        }
        Err(_) => panic!("expected parameters"),
    }
}
