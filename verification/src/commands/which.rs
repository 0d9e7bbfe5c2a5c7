//! The `which` command.

use vstd::prelude::*;

verus! {

/// Arguments for `run-cli which`.
#[derive(Debug, Clone, PartialEq, Eq)]
pub struct Args {
    /// Name or path of the tool.
    pub tool: String,
}

} // verus!
