use vstd::prelude::*;

use vstd::string::StringExecFns;
use crate::cli::{params_match, Cli, ClumpParams};
use crate::text::{chars_of, copy_str, string_of, trim, trim_str};

verus! {

/// A saved command preset: a name, a description and the command line it runs.
#[derive(Debug, Clone)]
pub struct Recipe {
    pub name: String,
    pub description: String,
    pub command: String,
}

/// Why a recipe's command cannot be run.
#[derive(Debug, Clone, PartialEq, Eq)]
pub enum RecipeError {
    /// The command is blank.
    NoCommand(String),
    /// The command splits into no words.
    EmptyCommand(String),
    /// The command's words are not a valid command line: the recipe's name and why.
    InvalidCommand(String, String),
}

impl Recipe {
    /// A recipe with the given name and an empty description and command.
    pub fn new(name: &str) -> (r: Self)
        ensures
            r.name@ == name@,
            r.description@ == Seq::<char>::empty(),
            r.command@ == Seq::<char>::empty(),
    {
        Recipe { name: copy_str(name), description: String::new(), command: String::new() }
    }

    /// A field-by-field copy.
    pub fn copy(&self) -> (r: Self)
        ensures
            r == *self,
    {
        Recipe {
            name: self.name.clone(),
            description: self.description.clone(),
            command: self.command.clone(),
        }
    }

    /// The full argument list (program name first) that the recipe's command stands for:
    /// `"clump"` followed by the words of the command.
    pub fn command_args(&self) -> (r: Result<Vec<String>, RecipeError>)
        ensures
            r matches Err(RecipeError::NoCommand(n)) ==> n@ == self.name@,
            r matches Err(RecipeError::EmptyCommand(n)) ==> n@ == self.name@,
            r is Err && r->Err_0 is NoCommand <==> trim(self.command@).len() == 0,
            r is Err && r->Err_0 is EmptyCommand <==> trim(self.command@).len() != 0 && shell_words(
                self.command@,
            ).len() == 0,
            r is Ok <==> trim(self.command@).len() != 0 && shell_words(self.command@).len() != 0,
            r matches Ok(v) ==> views(v@) == seq![program_name()] + shell_words(self.command@),
    {
        let t = trim_str(self.command.as_str());
        if t.as_str().is_empty() {
            return Err(RecipeError::NoCommand(self.name.clone()));
        }
        let words = shell_split(self.command.as_str());
        if words.len() == 0 {
            return Err(RecipeError::EmptyCommand(self.name.clone()));
        }
        let mut full: Vec<String> = Vec::new();
        full.push(String::from_str("clump"));
        proof {
            reveal_strlit("clump");
            assert("clump"@ =~= program_name());
            assert(views(full@) =~= seq![program_name()]);
        }
        let mut i: usize = 0;
        while i < words.len()
            invariant
                i <= words.len(),
                views(words@) == shell_words(self.command@),
                views(full@) == seq![program_name()] + views(words@).take(i as int),
            decreases words.len() - i,
        {
            let ghost prev = full@;
            let w = words[i].clone();
            full.push(w);
            proof {
                assert(views(full@) =~= views(prev).push(w@));
                assert(views(words@).take(i + 1) =~= views(words@).take(i as int).push(w@));
                assert(views(full@) =~= seq![program_name()] + views(words@).take(i + 1));
            }
            i = i + 1;
        }
        assert(views(words@).take(words.len() as int) =~= views(words@));
        Ok(full)
    }

    /// The parameters that the recipe's command stands for, given what parsing its
    /// argument list (`command_args`) as a command line gave: the error of `command_args`
    /// when there is no argument list; otherwise `InvalidCommand` with the parser's
    /// message when parsing failed, and the parsed command line's parameters (see
    /// `Cli::to_params`) when it succeeded.
    pub fn to_params(&self, parsed: Result<Cli, String>) -> (r: Result<ClumpParams, RecipeError>)
        ensures
            trim(self.command@).len() == 0 ==> (r matches Err(RecipeError::NoCommand(n)) && n@
                == self.name@),
            trim(self.command@).len() != 0 && shell_words(self.command@).len() == 0 ==> (r matches Err(
                RecipeError::EmptyCommand(n),
            ) && n@ == self.name@),
            trim(self.command@).len() != 0 && shell_words(self.command@).len() != 0 ==> match parsed {
                Err(m) => r matches Err(RecipeError::InvalidCommand(n, why)) && n@ == self.name@
                    && why@ == m@,
                Ok(cli) => r matches Ok(p) && exists|e: Seq<bool>|
                    e.len() == cli.paths@.len() && params_match(cli, e, p),
            },
    {
        match self.command_args() {
            Err(e) => Err(e),
            Ok(_) => match parsed {
                Err(m) => Err(RecipeError::InvalidCommand(self.name.clone(), m)),
                Ok(cli) => Ok(cli.to_params()),
            },
        }
    }
}

/// The program name put in front of a recipe's words.
pub open spec fn program_name() -> Seq<char> {
    seq!['c', 'l', 'u', 'm', 'p']
}

/// The character views of a sequence of strings.
pub open spec fn views(v: Seq<String>) -> Seq<Seq<char>> {
    v.map_values(|x: String| x@)
}

/// State of the command-line splitter after some characters: the finished words, the
/// word being built, whether a single or double quote is open, and whether the previous
/// character was a backslash inside double quotes.
pub type SplitState = (Seq<Seq<char>>, Seq<char>, bool, bool, bool);

/// One character of the splitter. Inside double quotes a backslash makes the next
/// character literal; quotes of the other kind are literal inside quotes; blanks (space,
/// tab) outside quotes end a word; everything else is part of the word.
pub open spec fn split_step(st: SplitState, c: char) -> SplitState {
    let (args, cur, single, double, escape) = st;
    if escape {
        (args, cur.push(c), single, double, false)
    } else if c == '\'' && !double {
        (args, cur, !single, double, false)
    } else if c == '"' && !single {
        (args, cur, single, !double, false)
    } else if c == '\\' && double {
        (args, cur, single, double, true)
    } else if (c == ' ' || c == '\t') && !single && !double {
        if cur.len() > 0 {
            (args.push(cur), Seq::empty(), single, double, false)
        } else {
            (args, cur, single, double, false)
        }
    } else {
        (args, cur.push(c), single, double, false)
    }
}

/// The splitter's state after all of `s`.
pub open spec fn split_scan(s: Seq<char>) -> SplitState
    decreases s.len(),
{
    if s.len() == 0 {
        (Seq::empty(), Seq::empty(), false, false, false)
    } else {
        split_step(split_scan(s.drop_last()), s.last())
    }
}

/// The words of a shell-like command line: the finished words, and the last word if it
/// is not empty.
pub open spec fn shell_words(s: Seq<char>) -> Seq<Seq<char>> {
    let st = split_scan(s);
    if st.1.len() > 0 {
        st.0.push(st.1)
    } else {
        st.0
    }
}

/// Splits a command line into words, honouring single quotes, double quotes and
/// backslash escapes inside double quotes.
pub fn shell_split(s: &str) -> (r: Vec<String>)
    ensures
        views(r@) == shell_words(s@),
{
    let chars = chars_of(s);
    let mut args: Vec<String> = Vec::new();
    let mut current: Vec<char> = Vec::new();
    let mut in_single = false;
    let mut in_double = false;
    let mut escape = false;
    let mut i: usize = 0;
    while i < chars.len()
        invariant
            i <= chars.len(),
            chars@ == s@,
            split_scan(chars@.take(i as int)) == (
                views(args@),
                current@,
                in_single,
                in_double,
                escape,
            ),
        decreases chars.len() - i,
    {
        let c = chars[i];
        proof {
            assert(chars@.take(i + 1).drop_last() == chars@.take(i as int));
            assert(chars@.take(i + 1).last() == c);
        }
        if escape {
            current.push(c);
            escape = false;
        } else if c == '\'' && !in_double {
            in_single = !in_single;
        } else if c == '"' && !in_single {
            in_double = !in_double;
        } else if c == '\\' && in_double {
            escape = true;
        } else if (c == ' ' || c == '\t') && !in_single && !in_double {
            if current.len() > 0 {
                let word = string_of(&current);
                args.push(word);
                current = Vec::new();
                proof {
                    assert(current@ =~= Seq::<char>::empty());
                }
            }
        } else {
            current.push(c);
        }
        i = i + 1;
    }
    assert(chars@.take(chars.len() as int) == chars@);
    if current.len() > 0 {
        let word = string_of(&current);
        args.push(word);
    }
    args
}

/// Every word that the splitter yields is non-empty.
pub proof fn lemma_shell_words_nonempty(s: Seq<char>)
    ensures
        forall|i: int| 0 <= i < shell_words(s).len() ==> #[trigger] shell_words(s)[i].len() > 0,
{
    lemma_scan_words_nonempty(s);
}

proof fn lemma_scan_words_nonempty(s: Seq<char>)
    ensures
        forall|i: int| 0 <= i < split_scan(s).0.len() ==> #[trigger] split_scan(s).0[i].len() > 0,
    decreases s.len(),
{
    if s.len() > 0 {
        lemma_scan_words_nonempty(s.drop_last());
        let st = split_scan(s.drop_last());
        assert(split_scan(s) == split_step(st, s.last()));
        assert forall|i: int| 0 <= i < split_scan(s).0.len() implies #[trigger] split_scan(s).0[i].len()
            > 0 by {
            if i < st.0.len() {
                assert(split_scan(s).0[i] == st.0[i]);
            }
        }
    }
}

/// A word that the splitter reads back as it is: not empty, and without blanks, quotes
/// or backslashes.
pub open spec fn plain_word(w: Seq<char>) -> bool {
    &&& w.len() > 0
    &&& forall|i: int|
        0 <= i < w.len() ==> !(w[i] == ' ' || w[i] == '\t' || w[i] == '\'' || w[i] == '"' || w[i] == '\\')
}

/// Words joined by single spaces.
pub open spec fn joined_words(ws: Seq<Seq<char>>) -> Seq<char>
    decreases ws.len(),
{
    if ws.len() == 0 {
        Seq::empty()
    } else if ws.len() == 1 {
        ws[0]
    } else {
        joined_words(ws.drop_last()) + seq![' '] + ws.last()
    }
}

/// The splitter's state after `t`, starting from `st`.
spec fn scan_from(st: SplitState, t: Seq<char>) -> SplitState
    decreases t.len(),
{
    if t.len() == 0 {
        st
    } else {
        split_step(scan_from(st, t.drop_last()), t.last())
    }
}

proof fn lemma_scan_append(s: Seq<char>, t: Seq<char>)
    ensures
        split_scan(s + t) == scan_from(split_scan(s), t),
    decreases t.len(),
{
    if t.len() == 0 {
        assert(s + t =~= s);
    } else {
        lemma_scan_append(s, t.drop_last());
        assert((s + t).drop_last() =~= s + t.drop_last());
        assert((s + t).last() == t.last());
    }
}

proof fn lemma_scan_plain(args: Seq<Seq<char>>, cur: Seq<char>, w: Seq<char>)
    requires
        forall|i: int|
            0 <= i < w.len() ==> !(w[i] == ' ' || w[i] == '\t' || w[i] == '\'' || w[i] == '"' || w[i] == '\\'),
    ensures
        scan_from((args, cur, false, false, false), w) == (args, cur + w, false, false, false),
    decreases w.len(),
{
    if w.len() == 0 {
        assert(cur + w =~= cur);
    } else {
        let d = w.drop_last();
        assert forall|i: int|
            0 <= i < d.len() implies !(d[i] == ' ' || d[i] == '\t' || d[i] == '\'' || d[i] == '"' || d[i] == '\\') by {
            assert(d[i] == w[i]);
        }
        lemma_scan_plain(args, cur, d);
        assert(w.last() == w[w.len() - 1]);
        assert((cur + d).push(w.last()) =~= cur + w);
    }
}

proof fn lemma_scan_joined(ws: Seq<Seq<char>>)
    requires
        ws.len() > 0,
        forall|i: int| 0 <= i < ws.len() ==> plain_word(#[trigger] ws[i]),
    ensures
        split_scan(joined_words(ws)) == (ws.drop_last(), ws.last(), false, false, false),
    decreases ws.len(),
{
    let w = ws.last();
    assert(plain_word(ws[ws.len() - 1]));
    if ws.len() == 1 {
        lemma_scan_append(Seq::empty(), w);
        assert(Seq::<char>::empty() + w =~= w);
        assert(split_scan(Seq::<char>::empty()) == (Seq::<Seq<char>>::empty(), Seq::<char>::empty(), false, false, false));
        lemma_scan_plain(Seq::empty(), Seq::empty(), w);
        assert(Seq::<char>::empty() + w =~= w);
        assert(ws.drop_last() =~= Seq::<Seq<char>>::empty());
        assert(ws[0] == w);
    } else {
        let p = ws.drop_last();
        assert forall|i: int| 0 <= i < p.len() implies plain_word(#[trigger] p[i]) by {
            assert(p[i] == ws[i]);
        }
        lemma_scan_joined(p);
        let jp = joined_words(p);
        let js = jp + seq![' '];
        assert(js.drop_last() =~= jp);
        assert(js.last() == ' ');
        assert(plain_word(p.last())) by {
            assert(p.last() == p[p.len() - 1]);
        }
        assert(split_scan(js) == (p.drop_last().push(p.last()), Seq::<char>::empty(), false, false, false));
        assert(p.drop_last().push(p.last()) =~= p);
        lemma_scan_append(js, w);
        lemma_scan_plain(p, Seq::empty(), w);
        assert(Seq::<char>::empty() + w =~= w);
        assert(joined_words(ws) == js + w);
    }
}

/// Splitting words joined by single spaces gives the words back, when each word is
/// plain (see `plain_word`).
pub proof fn lemma_shell_words_of_joined(ws: Seq<Seq<char>>)
    requires
        forall|i: int| 0 <= i < ws.len() ==> plain_word(#[trigger] ws[i]),
    ensures
        shell_words(joined_words(ws)) == ws,
{
    if ws.len() == 0 {
        assert(shell_words(Seq::empty()) =~= Seq::<Seq<char>>::empty());
    } else {
        lemma_scan_joined(ws);
        assert(plain_word(ws[ws.len() - 1]));
        assert(ws.drop_last().push(ws.last()) =~= ws);
    }
}

} // verus!

verus! {

/// The directory recipes are kept in, given the configuration directory: `clump` under
/// it, or under `.config` when there is none.
pub open spec fn recipes_dir_for(dir: Option<Seq<char>>) -> Seq<char> {
    crate::paths::join(
        match dir {
            Some(d) => d,
            None => ".config"@,
        },
        "clump"@,
    )
}

/// The recipes file, given the configuration directory.
pub open spec fn recipes_path_for(dir: Option<Seq<char>>) -> Seq<char> {
    crate::paths::join(recipes_dir_for(dir), "recipes.ron"@)
}

/// The character view of an optional string.
pub open spec fn opt_view(o: Option<String>) -> Option<Seq<char>> {
    match o {
        Some(s) => Some(s@),
        None => None,
    }
}

/// The recipes directory under the given configuration directory.
pub fn recipes_dir_in(dir: &Option<String>) -> (r: String)
    ensures
        r@ == recipes_dir_for(opt_view(*dir)),
{
    match dir {
        Some(d) => crate::paths::join_path(d.as_str(), "clump"),
        None => crate::paths::join_path(".config", "clump"),
    }
}

/// The recipes file under the given configuration directory.
pub fn recipes_path_in(dir: &Option<String>) -> (r: String)
    ensures
        r@ == recipes_path_for(opt_view(*dir)),
{
    let d = recipes_dir_in(dir);
    crate::paths::join_path(d.as_str(), "recipes.ron")
}

/// The recipes directory under the user's configuration directory.
pub fn recipes_dir() -> (r: String)
    ensures
        exists|d: Option<Seq<char>>| r@ == recipes_dir_for(d),
{
    let d = crate::paths::config_dir();
    recipes_dir_in(&d)
}

/// The recipes file under the user's configuration directory.
pub fn recipes_path() -> (r: String)
    ensures
        exists|d: Option<Seq<char>>| r@ == recipes_path_for(d),
{
    let d = crate::paths::config_dir();
    recipes_path_in(&d)
}

fn make_recipe(name: &str, description: &str, command: &str) -> (r: Recipe)
    ensures
        r.name@ == name@,
        r.description@ == description@,
        r.command@ == command@,
{
    Recipe { name: copy_str(name), description: copy_str(description), command: copy_str(command) }
}

/// The recipes a fresh installation starts with.
pub fn default_recipes() -> (r: Vec<Recipe>)
    ensures
        r@.len() == 6,
        r@[0].name@ == "Rust Project"@,
        r@[0].description@ == "Common Rust project source files"@,
        r@[0].command@ == ". -e target -e .git --only .rs,.toml"@,
        r@[1].name@ == "Go Project"@,
        r@[1].description@ == "Common Go project source files"@,
        r@[1].command@ == ". -e vendor -e .git --only .go,.mod,.sum"@,
        r@[2].name@ == "Godot Project"@,
        r@[2].description@ == "Godot project files (scripts, scenes, resources)"@,
        r@[2].command@ == ". -e .godot -e .git --only .gd,.tscn,.tres,.godot,.gdshader"@,
        r@[3].name@ == "Unity Project"@,
        r@[3].description@ == "Unity project files (C# scripts, shaders, packages)"@,
        r@[3].command@
            == ". -e Library -e Temp -e obj -e Build -e Builds -e Logs -e UserSettings --only .cs,.shader,.cginc,.hlsl,.compute,.uss,.uxml,.asset"@,
        r@[4].name@ == "Unreal Project"@,
        r@[4].description@ == "Unreal Engine project files (C++, Blueprints, assets)"@,
        r@[4].command@
            == ". -e Intermediate -e Binaries -e Saved -e DerivedDataCache -e .git --only .h,.cpp,.uproject,.ini,.cs,.usf,.ush"@,
        r@[5].name@ == "Shallow Snippet"@,
        r@[5].description@ == "Current dir only, no recursion"@,
        r@[5].command@ == ". --shallow"@,
{
    let mut v: Vec<Recipe> = Vec::new();
    v.push(make_recipe("Rust Project", "Common Rust project source files", ". -e target -e .git --only .rs,.toml"));
    v.push(make_recipe("Go Project", "Common Go project source files", ". -e vendor -e .git --only .go,.mod,.sum"));
    v.push(make_recipe("Godot Project", "Godot project files (scripts, scenes, resources)", ". -e .godot -e .git --only .gd,.tscn,.tres,.godot,.gdshader"));
    v.push(make_recipe("Unity Project", "Unity project files (C# scripts, shaders, packages)", ". -e Library -e Temp -e obj -e Build -e Builds -e Logs -e UserSettings --only .cs,.shader,.cginc,.hlsl,.compute,.uss,.uxml,.asset"));
    v.push(make_recipe("Unreal Project", "Unreal Engine project files (C++, Blueprints, assets)", ". -e Intermediate -e Binaries -e Saved -e DerivedDataCache -e .git --only .h,.cpp,.uproject,.ini,.cs,.usf,.ush"));
    v.push(make_recipe("Shallow Snippet", "Current dir only, no recursion", ". --shallow"));
    v
}

/// The index of the first recipe with the given name, if any.
pub fn find_recipe(recipes: &Vec<Recipe>, name: &str) -> (r: Option<usize>)
    ensures
        match r {
            Some(i) => i < recipes@.len() && recipes@[i as int].name@ == name@ && forall|j: int|
                0 <= j < i ==> recipes@[j].name@ != name@,
            None => forall|j: int| 0 <= j < recipes@.len() ==> recipes@[j].name@ != name@,
        },
{
    let mut i: usize = 0;
    while i < recipes.len()
        invariant
            i <= recipes.len(),
            forall|j: int| 0 <= j < i ==> recipes@[j].name@ != name@,
        decreases recipes.len() - i,
    {
        if crate::files::str_eq(recipes[i].name.as_str(), name) {
            return Some(i);
        }
        i = i + 1;
    }
    None
}

/// The recipes without those named `name`, in order.
pub open spec fn without_name(recipes: Seq<Recipe>, name: Seq<char>) -> Seq<Recipe>
    decreases recipes.len(),
{
    if recipes.len() == 0 {
        Seq::empty()
    } else if recipes.last().name@ == name {
        without_name(recipes.drop_last(), name)
    } else {
        without_name(recipes.drop_last(), name).push(recipes.last())
    }
}

/// Removes every recipe named `name`.
pub fn remove_named(recipes: &mut Vec<Recipe>, name: &str)
    ensures
        final(recipes)@ == without_name(old(recipes)@, name@),
{
    let mut out: Vec<Recipe> = Vec::new();
    let mut i: usize = 0;
    assert(recipes@.take(0) =~= Seq::<Recipe>::empty());
    while i < recipes.len()
        invariant
            i <= recipes.len(),
            recipes@ == old(recipes)@,
            out@ == without_name(recipes@.take(i as int), name@),
        decreases recipes.len() - i,
    {
        assert(recipes@.take(i + 1).drop_last() =~= recipes@.take(i as int));
        assert(recipes@.take(i + 1).last() == recipes@[i as int]);
        if !crate::files::str_eq(recipes[i].name.as_str(), name) {
            out.push(recipes[i].copy());
        }
        i = i + 1;
    }
    assert(recipes@.take(recipes.len() as int) =~= recipes@);
    *recipes = out;
}

/// Why a recipe cannot be added or deleted.
#[derive(Debug, Clone, PartialEq, Eq)]
pub enum RecipeListError {
    /// A recipe of that name is already there.
    AlreadyExists,
    /// No recipe of that name is there.
    NotFound,
}

/// Adds an empty recipe named `name`, unless one of that name is already there.
pub fn add_recipe(recipes: &mut Vec<Recipe>, name: &str) -> (r: Result<(), RecipeListError>)
    ensures
        (exists|j: int| 0 <= j < old(recipes)@.len() && old(recipes)@[j].name@ == name@) ==> (r
            == Err::<(), RecipeListError>(RecipeListError::AlreadyExists) && final(recipes)@ == old(recipes)@),
        !(exists|j: int| 0 <= j < old(recipes)@.len() && old(recipes)@[j].name@ == name@) ==> (r
            is Ok && final(recipes)@.len() == old(recipes)@.len() + 1 && final(recipes)@.drop_last()
            == old(recipes)@ && final(recipes)@.last().name@ == name@ && final(recipes)@.last().description@.len() == 0
            && final(recipes)@.last().command@.len() == 0),
{
    match find_recipe(recipes, name) {
        Some(_) => Err(RecipeListError::AlreadyExists),
        None => {
            recipes.push(Recipe::new(name));
            assert(recipes@.drop_last() =~= old(recipes)@);
            Ok(())
        },
    }
}

/// Deletes every recipe named `name`; fails, changing nothing, when there is none.
pub fn delete_recipe(recipes: &mut Vec<Recipe>, name: &str) -> (r: Result<(), RecipeListError>)
    ensures
        (exists|j: int| 0 <= j < old(recipes)@.len() && old(recipes)@[j].name@ == name@) ==> (r
            is Ok && final(recipes)@ == without_name(old(recipes)@, name@)),
        !(exists|j: int| 0 <= j < old(recipes)@.len() && old(recipes)@[j].name@ == name@) ==> (r
            == Err::<(), RecipeListError>(RecipeListError::NotFound) && final(recipes)@ == old(recipes)@),
{
    match find_recipe(recipes, name) {
        None => Err(RecipeListError::NotFound),
        Some(_) => {
            remove_named(recipes, name);
            Ok(())
        },
    }
}

/// How a recipe is listed: its name, then ` - ` and its description when it has one.
pub open spec fn recipe_summary_spec(r: Recipe) -> Seq<char> {
    if r.description@.len() == 0 {
        r.name@
    } else {
        r.name@ + " - "@ + r.description@
    }
}

/// How a recipe is listed (see `recipe_summary_spec`).
pub fn recipe_summary(r: &Recipe) -> (s: String)
    ensures
        s@ == recipe_summary_spec(*r),
{
    let mut s = copy_str(r.name.as_str());
    if !r.description.as_str().is_empty() {
        crate::text::push_str(&mut s, " - ");
        crate::text::push_str(&mut s, r.description.as_str());
    }
    s
}

/// Removing a name that no recipe bears changes nothing.
proof fn lemma_without_absent_name(rs: Seq<Recipe>, name: Seq<char>)
    requires
        forall|j: int| 0 <= j < rs.len() ==> rs[j].name@ != name,
    ensures
        without_name(rs, name) == rs,
    decreases rs.len(),
{
    if rs.len() > 0 {
        lemma_without_absent_name(rs.drop_last(), name);
        assert(rs.drop_last().push(rs.last()) =~= rs);
    }
}

/// After deleting a name, no recipe bears it, and every recipe of another name is still
/// there.
pub proof fn lemma_without_name(rs: Seq<Recipe>, name: Seq<char>)
    ensures
        forall|j: int| 0 <= j < without_name(rs, name).len() ==> without_name(rs, name)[j].name@ != name,
        forall|j: int| 0 <= j < rs.len() && rs[j].name@ != name ==> without_name(rs, name).contains(rs[j]),
    decreases rs.len(),
{
    if rs.len() > 0 {
        let t = rs.drop_last();
        lemma_without_name(t, name);
        let w = without_name(t, name);
        assert forall|j: int| 0 <= j < rs.len() && rs[j].name@ != name implies without_name(rs, name).contains(rs[j]) by {
            if j < t.len() {
                assert(t[j] == rs[j]);
                let k = choose|k: int| 0 <= k < w.len() && w[k] == t[j];
                if rs.last().name@ != name {
                    assert(w.push(rs.last())[k] == rs[j]);
                }
            } else {
                assert(w.push(rs.last())[w.len() as int] == rs[j]);
            }
        }
    }
}

/// Adding a recipe of a new name and then deleting that name gives back the recipes as
/// they were.
pub proof fn lemma_add_then_delete(rs: Seq<Recipe>, added: Recipe, name: Seq<char>)
    requires
        forall|j: int| 0 <= j < rs.len() ==> rs[j].name@ != name,
        added.name@ == name,
    ensures
        without_name(rs.push(added), name) == rs,
{
    assert(rs.push(added).drop_last() =~= rs);
    lemma_without_absent_name(rs, name);
}

} // verus!
