use vstd::prelude::*;

pub mod output;
pub mod path;
pub mod process;
pub mod report;
pub mod scanner;
pub mod screen;
pub mod text;
pub mod types;
pub mod view;
pub mod actions;
pub mod app;
pub mod collector;
pub mod commands;
pub mod error;
pub mod keybindings;

verus! {

} // verus!
