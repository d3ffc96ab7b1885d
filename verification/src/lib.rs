use vstd::prelude::*;

pub mod allowlist;
pub mod checker;
pub mod duration;
pub mod error;
pub mod filter;
pub mod glob;
pub mod logical_glob;
pub mod path_utils;
pub mod project;
pub mod project_laws;
pub mod scanner;
pub mod state;
pub mod structure_config;
pub mod text;
pub mod trend;
pub mod trend_formatting;

verus! {
} // verus!
