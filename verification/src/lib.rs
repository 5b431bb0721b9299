use vstd::prelude::*;

pub mod banner;
pub mod cli;
pub mod clipboard;
pub mod config;
pub mod filepicker;
pub mod files;
pub mod form;
pub mod fuzzypicker;
pub mod order;
pub mod output;
pub mod paths;
pub mod prompt;
pub mod recipe;
pub mod text;
pub mod tui;

verus! {
}
