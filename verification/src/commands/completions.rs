//! The `completions` command.

use vstd::prelude::*;

verus! {

/// The shells completion scripts can be generated for.
#[derive(Debug, Clone, Copy, PartialEq, Eq, Structural)]
pub enum Shell {
    /// Bash.
    Bash,
    /// Elvish.
    Elvish,
    /// Fish.
    Fish,
    /// PowerShell.
    PowerShell,
    /// Zsh.
    Zsh,
}

/// Arguments for `run-cli completions`.
#[derive(Debug, Clone, PartialEq, Eq)]
pub struct Args {
    /// The shell to generate completions for.
    pub shell: Shell,
}

} // verus!
