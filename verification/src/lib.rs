//! run-cli: manage and run tools from a toolbox directory and a registry of
//! named tools.

pub mod cli;
pub mod commands;
pub mod config;
pub mod messages;
pub mod order;
pub mod paths;
pub mod runner;
pub mod suggest;
pub mod toolbox;

use vstd::prelude::*;

verus! {

/// Generic runtime error (IO, validation, ...).
pub const EXIT_ERROR: i32 = 1;

/// Command line usage error.
pub const EXIT_USAGE: i32 = 2;

/// The requested tool could not be found.
pub const EXIT_TOOL_NOT_FOUND: i32 = 127;

} // verus!
