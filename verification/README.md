# clump

clump combines text files into a single output (for pasting into a chat, a ticket or
an archive): it walks the given paths, keeps the files selected with `--only`, drops
those matched by exclusions, sorts them, and writes each file under a header, with
optional separators and line numbers. Without arguments it opens an interactive
terminal interface with a file picker, saved command presets ("recipes") and settings.

## Layout

- `src/` is the library, written in Verus. Its functions carry contracts and are
  verified, except the small wrappers marked `#[verifier::external_body]` that call
  glob, nucleo, dirs and a few std functions (`String::push`, `insert`, `remove`,
  `str::to_lowercase`, `Path::exists`, `Path::parent`): Verus takes their contracts on
  trust, and each one's doc comment says what it claims.
  - `cli.rs`: command-line parameters, dispatch, the plan of a run, output paths.
  - `files.rs`: exclusion rules, `--only` filtering, walk decisions, binary detection.
  - `order.rs`: the three sorting modes.
  - `output.rs`: the combined output (headers, separators, line numbers).
  - `recipe.rs`: recipes, their command lines (a small shell-like splitter), the recipe list.
  - `config.rs`, `paths.rs`, `text.rs`: settings, path and text helpers.
  - `filepicker.rs`, `fuzzypicker.rs`, `form.rs`, `tui.rs`: the interactive screens as
    state machines: each key gives the next state and what the caller must do.
  - `prompt.rs`, `clipboard.rs`, `banner.rs`: answers to prompts, clipboard warnings,
    escape-sequence stripping.
- `app/` is the program around it: argument parsing, files on disk, the clipboard, the
  terminal and the event loop. The library holds paths as text; for a file name that is
  not valid UTF-8, `app/` remembers the path itself and reads and lists through it.
- `tests/` runs the library on concrete values.

The outside crates glob and nucleo are called from the library itself (pattern
matching and fuzzy matching); dirs gives the configuration directory.
