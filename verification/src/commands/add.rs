//! The `add` command: register a tool in the config by name and absolute
//! path. Nothing is copied or linked; `remove` later only unregisters the
//! entry.

use vstd::prelude::*;

use crate::commands::Error;
use crate::config::{
    spec_lookup, spec_upsert, validate_name, Config, ConfigError, ConfigTool, ConfigToolV,
};
use crate::messages::added;
use crate::paths::{file_name, spec_file_name, spec_is_single_name, Platform};
use crate::toolbox::IoFailure;

verus! {

/// Arguments for `run-cli add`.
#[derive(Debug, Clone, PartialEq, Eq)]
pub struct Args {
    /// File to register.
    pub path: String,
    /// Register the tool under this name instead of the source file name.
    pub name: Option<String>,
    /// Overwrite an existing entry with the same name.
    pub force: bool,
}

/// What was read for an `add`: whether the source exists, what making it
/// absolute gave, whether the absolute source is a file, and the config as
/// loaded.
pub struct AddFacts {
    /// Whether the source path exists.
    pub exists: bool,
    /// The absolute source path, or why it could not be had.
    pub absolute: Result<String, IoFailure>,
    /// Whether the absolute source is a regular file.
    pub is_file: bool,
    /// The config as loaded.
    pub config: Result<Config, ConfigError>,
}

/// A registration to make: the config to save and the confirmation to
/// print.
pub struct AddPlan {
    /// The config with the new registration.
    pub config: Config,
    /// The registered name.
    pub name: String,
    /// The registered absolute path.
    pub path: String,
    /// The confirmation line.
    pub message: String,
}

/// The name an `add` registers: the one asked for, else the absolute
/// source's file name.
pub open spec fn add_name(asked: Option<String>, source: Seq<char>, p: Platform) -> Option<Seq<char>> {
    match asked {
        Some(n) => Some(n@),
        None => spec_file_name(source, p),
    }
}

/// Decide an `add`. The checks come in this order: the source exists; it
/// can be made absolute; it is a file; a name can be had; the name is a
/// single file name; the config loaded; the name is not registered yet
/// (unless `force`).
pub fn execute(args: &Args, facts: AddFacts, p: Platform) -> (r: Result<AddPlan, Error>)
    ensures
        !facts.exists ==> r == Err::<AddPlan, Error>(
            Error::Config(ConfigError::SourceMissing(args.path)),
        ),
        facts.exists ==> match facts.absolute {
            Err(e) => r == Err::<AddPlan, Error>(
                Error::Config(ConfigError::AbsolutePathError(args.path, e.text)),
            ),
            Ok(source) => if !facts.is_file {
                r == Err::<AddPlan, Error>(Error::Config(ConfigError::SourceNotFile(source)))
            } else {
                match add_name(args.name, source@, p) {
                    None => r matches Err(Error::Config(ConfigError::InvalidToolName(n))) && n@
                        == source@,
                    Some(name) => if !spec_is_single_name(name, p) {
                        r matches Err(Error::Config(ConfigError::InvalidToolName(n))) && n@ == name
                    } else {
                        match facts.config {
                            Err(e) => r == Err::<AddPlan, Error>(Error::Config(e)),
                            Ok(c) => if spec_lookup(c@, name, p) is Some && !args.force {
                                r matches Err(Error::Config(ConfigError::DuplicateName(n))) && n@
                                    == name
                            } else {
                                r matches Ok(plan) && plan.name@ == name && plan.path@ == source@
                                    && plan.config@ == spec_upsert(
                                    c@,
                                    ConfigToolV { name, path: source@ },
                                    p,
                                ) && plan.message@ == "added "@ + name + " -> "@ + source@
                            },
                        }
                    },
                }
            },
        },
{
    if !facts.exists {
        return Err(Error::Config(ConfigError::SourceMissing(args.path.clone())));
    }
    let source = match facts.absolute {
        Ok(s) => s,
        Err(e) => return Err(Error::Config(ConfigError::AbsolutePathError(args.path.clone(), e.text))),
    };
    if !facts.is_file {
        return Err(Error::Config(ConfigError::SourceNotFile(source)));
    }
    let name = match &args.name {
        Some(n) => n.clone(),
        None => match file_name(source.as_str(), p) {
            Some(n) => n,
            None => return Err(Error::Config(ConfigError::InvalidToolName(source))),
        },
    };
    match validate_name(name.as_str(), p) {
        Ok(()) => {},
        Err(e) => return Err(Error::Config(e)),
    }
    let mut config = match facts.config {
        Ok(c) => c,
        Err(e) => return Err(Error::Config(e)),
    };
    if config.lookup(name.as_str(), p).is_some() && !args.force {
        return Err(Error::Config(ConfigError::DuplicateName(name)));
    }
    let message = added(name.as_str(), source.as_str());
    config.upsert(ConfigTool { name: name.clone(), path: source.clone() }, p);
    Ok(AddPlan { config, name, path: source, message })
}

} // verus!
