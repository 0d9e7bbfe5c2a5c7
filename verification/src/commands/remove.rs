//! The `remove` command: unregister a tool from the config. No file is
//! ever deleted: the source of an `add` and toolbox entries are left as
//! they are.

use vstd::prelude::*;

use crate::commands::{is_not_registered_error, tool_not_registered_error, Error};
use crate::config::{spec_remove, Config, ConfigError};
use crate::messages::removed;
use crate::paths::Platform;

verus! {

/// Arguments for `run-cli remove`.
#[derive(Debug, Clone, PartialEq, Eq)]
pub struct Args {
    /// Name of the registered tool.
    pub tool: String,
}

/// An unregistration to make: the config to save and the confirmation to
/// print.
pub struct RemovePlan {
    /// The config without the registration.
    pub config: Config,
    /// The confirmation line.
    pub message: String,
}

/// Decide a `remove`, given the config as loaded from `config_path`: the
/// registration the name resolves to (as a lookup would) is dropped; a name
/// that resolves to none is "not registered".
pub fn execute(args: &Args, config: Result<Config, ConfigError>, config_path: &str, p: Platform) -> (r:
    Result<RemovePlan, Error>)
    ensures
        match config {
            Err(e) => r == Err::<RemovePlan, Error>(Error::Config(e)),
            Ok(c) => match spec_remove(c@, args.tool@, p) {
                (rest, Some(t)) => r matches Ok(plan) && plan.config@ == rest && plan.message@
                    == "removed "@ + t.name,
                (_, None) => r matches Err(x) && is_not_registered_error(
                    x,
                    config_path@,
                    args.tool@,
                    Some(c@),
                    p,
                ),
            },
        },
{
    let mut config = match config {
        Ok(c) => c,
        Err(e) => return Err(Error::Config(e)),
    };
    match config.remove(args.tool.as_str(), p) {
        Some(t) => {
            let message = removed(t.name.as_str());
            Ok(RemovePlan { config, message })
        },
        None => Err(tool_not_registered_error(config_path, args.tool.as_str(), Some(&config), p)),
    }
}

} // verus!
