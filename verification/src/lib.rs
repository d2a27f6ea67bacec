use vstd::prelude::*;

pub mod collectors;
pub mod config;
pub mod engine;
pub mod table;
pub mod text;
pub mod tui;

verus! {

} // verus!
