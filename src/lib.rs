//! Settings resolution, command-line overrides and entry parsing for a
//! command-line journaling tool.
use vstd::prelude::*;

pub mod cli;
pub mod entry;
pub mod error;
pub mod journal;
pub mod list;
pub mod settings;
pub mod text;

verus! {

} // verus!
