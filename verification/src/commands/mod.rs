//! The subcommands: their arguments and the decisions they make, and the
//! shared context and error handling.
//!
//! Tool names resolve config-first: a name the config resolves is used
//! wholesale (a broken registration is an error, never a fall back to the
//! toolbox); only a name the config does not resolve is looked up in the
//! toolbox. An unresolvable name gets a message with a spelling suggestion
//! and the names available.

pub mod add;
pub mod completions;
pub mod list;
pub mod remove;
pub mod run;
pub mod which;

use vstd::prelude::*;

use crate::config::{
    config_error_text, resolve_config_path, spec_config_path, spec_lookup, Config, ConfigError,
    ConfigTool, ConfigToolV,
};
use crate::messages::{
    names_view, tool_not_found, tool_not_found_list_failed, tool_not_found_text,
    tool_not_registered, tool_not_registered_no_list, tool_not_registered_text,
};
use crate::order::{lemma_lt_total, lemma_lt_transitive, seq_le, seq_lt, sort_by_key, sorted_by_key, Keyed};
use crate::paths::{str_eq, Platform};
use crate::runner::{run_error_text, RunError};
use crate::suggest::{best_of, spec_distances, suggest};
use crate::toolbox::{
    io_str, opt_str, spec_bin_dir, spec_locate, facts_view, toolbox_error_text, IoFailure,
    Listing, PathFacts, Toolbox, ToolboxError, ToolboxErrorV, ToolV,
};

verus! {

broadcast use vstd::seq_lib::group_to_multiset_ensures;

/// What the environment says about where things are.
#[derive(Clone, Debug, PartialEq, Eq)]
pub struct Environment {
    /// The value of `RUN_CLI_BIN`, if set.
    pub bin_dir: Option<String>,
    /// The value of `RUN_CLI_CONFIG`, if set.
    pub config: Option<String>,
    /// The platform's default config path.
    pub default_config: String,
}

/// Shared state of every command: the toolbox directory and the config
/// file path.
#[derive(Clone, Debug, PartialEq, Eq)]
pub struct Context {
    /// The toolbox directory.
    pub toolbox: Toolbox,
    /// The config file holding registered tools.
    pub config_path: String,
}

/// The view of an optional string.
pub open spec fn opt_string(o: Option<String>) -> Option<Seq<char>> {
    match o {
        Some(s) => Some(s@),
        None => None,
    }
}

impl Context {
    /// Build a context from the command line options and the environment.
    pub fn new(bin_dir: Option<&str>, config: Option<&str>, env: &Environment) -> (r: Context)
        ensures
            r.toolbox.dir_view() == spec_bin_dir(opt_str(bin_dir), opt_string(env.bin_dir)),
            r.config_path@ == spec_config_path(
                opt_str(config),
                opt_string(env.config),
                env.default_config@,
            ),
    {
        let env_bin = match &env.bin_dir {
            Some(s) => Some(s.as_str()),
            None => None,
        };
        let env_config = match &env.config {
            Some(s) => Some(s.as_str()),
            None => None,
        };
        Context {
            toolbox: Toolbox::resolve(bin_dir, env_bin),
            config_path: resolve_config_path(config, env_config, env.default_config.as_str()),
        }
    }
}

/// Unified error type for all commands.
#[derive(Clone, Debug, PartialEq, Eq)]
pub enum Error {
    /// A toolbox operation failed.
    Toolbox(ToolboxError),
    /// A config operation failed.
    Config(ConfigError),
    /// Spawning or waiting for a tool failed.
    Run(RunError),
    /// Serializing structured output failed (the error's text).
    Serialize(String),
    /// An unresolvable tool name, with the message to print (spelling
    /// suggestion and available tools).
    RichToolNotFound {
        /// Message printed to stderr.
        message: String,
    },
}

/// The exit code an error produces.
pub open spec fn error_code(e: Error) -> int {
    match e {
        Error::Toolbox(ToolboxError::ToolNotFound(..)) => 127,
        Error::RichToolNotFound { .. } => 127,
        _ => 1,
    }
}

/// The text of an error.
pub open spec fn error_text(e: Error) -> Seq<char> {
    match e {
        Error::Toolbox(t) => toolbox_error_text(t@),
        Error::Config(c) => config_error_text(c),
        Error::Run(r) => run_error_text(r),
        Error::Serialize(s) => s@,
        Error::RichToolNotFound { message } => message@,
    }
}

impl Error {
    /// The process exit code this error should produce: 127 for a tool
    /// that is not found, 1 otherwise.
    pub fn code(&self) -> (r: i32)
        ensures
            r as int == error_code(*self),
    {
        match self {
            Error::Toolbox(ToolboxError::ToolNotFound(..)) => crate::EXIT_TOOL_NOT_FOUND,
            Error::RichToolNotFound { .. } => crate::EXIT_TOOL_NOT_FOUND,
            _ => crate::EXIT_ERROR,
        }
    }

    /// The message printed for this error.
    pub fn message(&self) -> (r: String)
        ensures
            r@ == error_text(*self),
    {
        match self {
            Error::Toolbox(t) => t.message(),
            Error::Config(c) => c.message(),
            Error::Run(x) => x.message(),
            Error::Serialize(s) => s.clone(),
            Error::RichToolNotFound { message } => message.clone(),
        }
    }
}

/// Whether a sequence of names is strictly increasing.
pub open spec fn strictly_sorted(s: Seq<Seq<char>>) -> bool {
    forall|i: int, j: int| 0 <= i < j < s.len() ==> seq_lt(#[trigger] s[i], #[trigger] s[j])
}

/// The names registered in a config, when it could be read.
pub open spec fn config_names(config: Option<Seq<ConfigToolV>>) -> Seq<Seq<char>> {
    match config {
        Some(c) => c.map_values(|t: ConfigToolV| t.name),
        None => Seq::empty(),
    }
}

/// The names of the toolbox entries, when the toolbox could be listed.
pub open spec fn bin_names(listed: Result<Seq<ToolV>, ToolboxErrorV>) -> Seq<Seq<char>> {
    match listed {
        Ok(ts) => ts.map_values(|t: ToolV| t.name),
        Err(_) => Seq::empty(),
    }
}

/// The view of an optional config.
pub open spec fn opt_config(c: Option<&Config>) -> Option<Seq<ConfigToolV>> {
    match c {
        Some(x) => Some(x@),
        None => None,
    }
}

/// The suggestion for `name` among `avail`.
pub open spec fn suggestion_for(name: Seq<char>, avail: Seq<String>, p: Platform) -> Option<Seq<char>> {
    match best_of(spec_distances(name, avail, p)) {
        Some((d, j)) => Some(avail[j]@),
        None => None,
    }
}

/// Sorted, without duplicates.
fn sorted_unique(names: Vec<String>) -> (r: Vec<String>)
    ensures
        strictly_sorted(names_view(r@)),
        forall|x: Seq<char>| names_view(r@).contains(x) <==> names_view(names@).contains(x),
{
    let sorted = sort_by_key(names);
    proof {
        crate::order::lemma_map_multiset(names@, sorted@, |s: String| s@);
        assert forall|x: Seq<char>| names_view(sorted@).contains(x) <==> names_view(names@).contains(x) by {
            vstd::seq_lib::to_multiset_contains(names_view(sorted@), x);
            vstd::seq_lib::to_multiset_contains(names_view(names@), x);
        }
    }
    let mut out: Vec<String> = Vec::new();
    let mut i: usize = 0;
    while i < sorted.len()
        invariant
            i <= sorted@.len(),
            sorted_by_key(sorted@),
            strictly_sorted(names_view(out@)),
            forall|x: Seq<char>| names_view(out@).contains(x) <==> names_view(sorted@).take(i as int).contains(x),
            i > 0 ==> out@.len() > 0 && out@.last()@ == sorted@[i - 1]@,
            i == 0 ==> out@.len() == 0,
        decreases sorted@.len() - i,
    {
        let ghost before = out@;
        let keep = out.len() == 0 || !str_eq(out[out.len() - 1].as_str(), sorted[i].as_str());
        if keep {
            out.push(sorted[i].clone());
            proof {
                if before.len() > 0 {
                    let last = before.last()@;
                    let x = sorted@[i as int]@;
                    assert(seq_le(sorted@[i - 1].key_of(), sorted@[i as int].key_of()));
                    lemma_lt_total(last, x);
                    assert(seq_lt(last, x));
                    assert forall|a: int, b: int| 0 <= a < b < names_view(out@).len() implies seq_lt(
                        #[trigger] names_view(out@)[a],
                        #[trigger] names_view(out@)[b],
                    ) by {
                        if b == names_view(out@).len() - 1 && a < b - 1 {
                            assert(names_view(before)[a] == names_view(out@)[a]);
                            assert(seq_lt(names_view(before)[a], names_view(before)[before.len() - 1]));
                            lemma_lt_transitive(names_view(out@)[a], last, x);
                        } else if b < names_view(out@).len() - 1 {
                            assert(names_view(before)[a] == names_view(out@)[a]);
                            assert(names_view(before)[b] == names_view(out@)[b]);
                        }
                    }
                }
            }
        }
        proof {
            let t = names_view(sorted@).take(i + 1);
            assert(t =~= names_view(sorted@).take(i as int).push(sorted@[i as int]@));
            assert(names_view(out@) =~= (if keep {
                names_view(before).push(sorted@[i as int]@)
            } else {
                names_view(before)
            }));
            assert forall|x: Seq<char>| names_view(out@).contains(x) <==> t.contains(x) by {
                if names_view(out@).contains(x) {
                    let k = choose|k: int| 0 <= k < names_view(out@).len() && names_view(out@)[k] == x;
                    if k < before.len() {
                        assert(names_view(before)[k] == x);
                        assert(names_view(before).contains(x));
                        let m = choose|m: int| 0 <= m < i && names_view(sorted@).take(i as int)[m] == x;
                        assert(t[m] == x);
                    } else {
                        assert(t[i as int] == x);
                    }
                }
                if t.contains(x) {
                    let m = choose|m: int| 0 <= m < t.len() && t[m] == x;
                    if m < i {
                        assert(names_view(sorted@).take(i as int)[m] == x);
                        assert(names_view(sorted@).take(i as int).contains(x));
                        assert(names_view(before).contains(x));
                        let k = choose|k: int| 0 <= k < before.len() && names_view(before)[k] == x;
                        assert(names_view(out@)[k] == x);
                    } else {
                        assert(names_view(out@)[names_view(out@).len() - 1] == x);
                    }
                }
            }
        }
        i = i + 1;
    }
    assert(names_view(sorted@).take(sorted@.len() as int) =~= names_view(sorted@));
    out
}

/// Whether `r` is the error for unresolvable `name`: with neither the
/// config (`config`) nor the toolbox listing (`listed`) readable, a message
/// naming no tools; otherwise one naming the sorted, duplicate-free union
/// of both sources' names, with the closest of them as a suggestion.
pub open spec fn is_not_found_error(
    r: Error,
    dir: Seq<char>,
    name: Seq<char>,
    config: Option<Seq<ConfigToolV>>,
    listed: Result<Seq<ToolV>, ToolboxErrorV>,
    p: Platform,
) -> bool {
    r matches Error::RichToolNotFound { message } && (if config is None && listed is Err {
        message@ == "tool '"@ + name + "' not found in "@ + dir
    } else {
        exists|avail: Seq<String>|
            {
                &&& strictly_sorted(names_view(avail))
                &&& forall|x: Seq<char>|
                    names_view(avail).contains(x) <==> (config_names(config).contains(x)
                        || bin_names(listed).contains(x))
                &&& message@ == tool_not_found_text(
                    name,
                    dir,
                    names_view(avail),
                    suggestion_for(name, avail, p),
                )
            }
    })
}

/// Build the error for an unresolvable tool name, with suggestions drawn
/// from the union of the config's names (`config`, when it could be read)
/// and the toolbox's names (from `listing`). When neither could be read the
/// message names no tools.
pub fn tool_not_found_error(
    toolbox: &Toolbox,
    name: &str,
    config: Option<&Config>,
    listing: &Listing,
    p: Platform,
) -> (r: Error)
    ensures
        is_not_found_error(r, toolbox.dir_view(), name@, opt_config(config), toolbox.list_spec(listing), p),
{
    let mut available: Vec<String> = Vec::new();
    let config_read = match config {
        Some(c) => {
            available = c.names();
            proof {
                assert forall|x: Seq<char>| names_view(available@).contains(x) <==> config_names(opt_config(config)).contains(x) by {
                    vstd::seq_lib::to_multiset_contains(names_view(available@), x);
                    vstd::seq_lib::to_multiset_contains(config_names(opt_config(config)), x);
                }
            }
            true
        },
        None => {
            assert(names_view(available@) =~= Seq::<Seq<char>>::empty());
            false
        },
    };
    let ghost from_config = names_view(available@);
    let ghost mut bin_part: Seq<Seq<char>> = Seq::empty();
    let bin_listed = match toolbox.list_names(listing) {
        Ok(names) => {
            let mut j: usize = 0;
            let ghost start = available@;
            while j < names.len()
                invariant
                    j <= names@.len(),
                    available@ == start + names@.take(j as int),
                decreases names@.len() - j,
            {
                available.push(names[j].clone());
                assert(names@.take(j + 1) =~= names@.take(j as int).push(names@[j as int]));
                j = j + 1;
            }
            assert(names@.take(names@.len() as int) =~= names@);
            proof {
                if let Ok(ts) = toolbox.list_spec(listing) {
                    assert forall|x: Seq<char>| names_view(names@).contains(x) <==> bin_names(toolbox.list_spec(listing)).contains(x) by {
                        vstd::seq_lib::to_multiset_contains(names_view(names@), x);
                        vstd::seq_lib::to_multiset_contains(ts.map_values(|t: ToolV| t.name), x);
                    }
                }
                assert(names_view(available@) =~= names_view(start) + names_view(names@));
                bin_part = names_view(names@);
            }
            true
        },
        Err(_) => {
            assert(bin_names(toolbox.list_spec(listing)) =~= Seq::<Seq<char>>::empty());
            assert(names_view(available@) =~= from_config + bin_part);
            false
        },
    };
    assert(names_view(available@) == from_config + bin_part);
    assert(forall|x: Seq<char>| bin_part.contains(x) <==> bin_names(toolbox.list_spec(listing)).contains(x));
    proof {
        assert forall|x: Seq<char>| names_view(available@).contains(x) <==> (config_names(
            opt_config(config),
        ).contains(x) || bin_names(toolbox.list_spec(listing)).contains(x)) by {
            let a = names_view(available@);
            if a.contains(x) {
                let k = choose|k: int| 0 <= k < a.len() && a[k] == x;
                if k < from_config.len() {
                    assert(from_config[k] == x);
                } else {
                    assert(bin_part[k - from_config.len()] == x);
                }
            }
            if from_config.contains(x) {
                let k = choose|k: int| 0 <= k < from_config.len() && from_config[k] == x;
                assert(a[k] == x);
            }
            if bin_part.contains(x) {
                let k = choose|k: int| 0 <= k < bin_part.len() && bin_part[k] == x;
                assert(a[k + from_config.len()] == x);
            }
        }
    }
    let avail = sorted_unique(available);
    let message = if !config_read && !bin_listed {
        tool_not_found_list_failed(name, toolbox.dir())
    } else {
        let s = suggest(name, avail.as_slice(), p);
        match &s {
            Some(x) => tool_not_found(name, toolbox.dir(), avail.as_slice(), Some(x.as_str())),
            None => tool_not_found(name, toolbox.dir(), avail.as_slice(), None),
        }
    };
    Error::RichToolNotFound { message }
}


/// What was read when a tool name was not found in the toolbox: whether
/// the toolbox path exists and is a directory, whether the config file is a
/// file, the config (when it could be read) and the toolbox listing.
pub struct NotFoundFacts {
    /// Whether the toolbox path exists.
    pub dir_exists: bool,
    /// Whether the toolbox path is a directory.
    pub dir_is_dir: bool,
    /// Whether the config file exists as a file.
    pub config_is_file: bool,
    /// The config, when it could be read.
    pub config: Option<Config>,
    /// The toolbox listing as read.
    pub listing: Listing,
}

/// The view of an owned optional config.
pub open spec fn owned_config(c: Option<Config>) -> Option<Seq<ConfigToolV>> {
    match c {
        Some(x) => Some(x@),
        None => None,
    }
}

/// Whether an unresolvable name is reported as not found rather than as a
/// missing or unusable toolbox directory: the toolbox directory is there,
/// or the config file is (the config is then the primary source, and an
/// absent toolbox only means no toolbox entries).
pub open spec fn reported_not_found(f: NotFoundFacts) -> bool {
    f.config_is_file || (f.dir_exists && f.dir_is_dir)
}

/// The error an unresolvable name maps to, given what was read.
pub open spec fn is_mapped_not_found(r: Error, toolbox: Toolbox, name: Seq<char>, f: NotFoundFacts, p: Platform) -> bool {
    if reported_not_found(f) {
        is_not_found_error(
            r,
            toolbox.dir_view(),
            name,
            owned_config(f.config),
            toolbox.list_spec(&f.listing),
            p,
        )
    } else if !f.dir_exists {
        r matches Error::Toolbox(e) && e@ == ToolboxErrorV::MissingDirectory(toolbox.dir_view())
    } else {
        r matches Error::Toolbox(e) && e@ == ToolboxErrorV::NotADirectory(toolbox.dir_view())
    }
}

/// Build the error for an unresolvable tool name: a missing toolbox
/// directory is a runtime error when there is no config file, and so is a
/// toolbox path that is not a directory; otherwise the name is not found
/// (see [`tool_not_found_error`]).
pub fn map_tool_not_found(toolbox: &Toolbox, name: &str, facts: &NotFoundFacts, p: Platform) -> (r: Error)
    ensures
        is_mapped_not_found(r, *toolbox, name@, *facts, p),
{
    let config = match &facts.config {
        Some(c) => Some(c),
        None => None,
    };
    assert(opt_config(config) == owned_config(facts.config));
    if !facts.dir_exists {
        if facts.config_is_file {
            return tool_not_found_error(toolbox, name, config, &facts.listing, p);
        }
        return Error::Toolbox(ToolboxError::MissingDirectory(toolbox.dir().to_owned()));
    }
    if !facts.dir_is_dir {
        if facts.config_is_file {
            return tool_not_found_error(toolbox, name, config, &facts.listing, p);
        }
        return Error::Toolbox(ToolboxError::NotADirectory(toolbox.dir().to_owned()));
    }
    tool_not_found_error(toolbox, name, config, &facts.listing, p)
}

/// The error a failed toolbox lookup maps to: "not found" becomes the rich
/// message of [`map_tool_not_found`]; any other error is passed on.
pub open spec fn is_mapped_tool_error(
    r: Error,
    toolbox: Toolbox,
    name: Seq<char>,
    err: ToolboxErrorV,
    f: NotFoundFacts,
    p: Platform,
) -> bool {
    if err is ToolNotFound {
        is_mapped_not_found(r, toolbox, name, f, p)
    } else {
        r matches Error::Toolbox(e) && e@ == err
    }
}

/// Map a toolbox error from a tool lookup to the unified error, turning a
/// plain "not found" into the rich message.
pub fn map_tool_error(
    toolbox: &Toolbox,
    name: &str,
    err: ToolboxError,
    facts: &NotFoundFacts,
    p: Platform,
) -> (r: Error)
    ensures
        is_mapped_tool_error(r, *toolbox, name@, err@, *facts, p),
{
    match err {
        ToolboxError::ToolNotFound(..) => map_tool_not_found(toolbox, name, facts, p),
        err => Error::Toolbox(err),
    }
}

/// Resolve a tool name in the toolbox like [`Toolbox::locate`], mapping
/// "not found" to the rich message with a spelling suggestion and the
/// available tools (config entries and toolbox entries combined).
pub fn locate_tool(
    toolbox: &Toolbox,
    name: &str,
    facts: &[PathFacts],
    canonical_dir: &Result<String, IoFailure>,
    not_found: &NotFoundFacts,
    p: Platform,
) -> (r: Result<String, Error>)
    ensures
        match spec_locate(toolbox.dir_view(), name@, facts_view(facts@), io_str(*canonical_dir), p) {
            Ok(path) => r matches Ok(x) && x@ == path,
            Err(e) => r matches Err(x) && is_mapped_tool_error(x, *toolbox, name@, e, *not_found, p),
        },
{
    match toolbox.locate(name, facts, canonical_dir, p) {
        Ok(path) => Ok(path),
        Err(err) => Err(map_tool_error(toolbox, name, err, not_found, p)),
    }
}

/// Finish resolving a toolbox tool to an absolute path: `absolute` is what
/// making `tool_path` absolute gave.
pub fn resolve_absolute(tool_path: String, absolute: Result<String, IoFailure>) -> (r: Result<String, Error>)
    ensures
        match absolute {
            Ok(a) => r matches Ok(x) && x@ == a@,
            Err(e) => r matches Err(Error::Toolbox(x)) && x@ == ToolboxErrorV::AbsolutePathError(
                tool_path@,
                e.text@,
            ),
        },
{
    match absolute {
        Ok(a) => Ok(a),
        Err(e) => Err(Error::Toolbox(ToolboxError::AbsolutePathError(tool_path, e.text))),
    }
}

/// Where a tool name resolves first: to a config registration, or (only
/// when the config does not resolve it at all) to the toolbox.
#[derive(Clone, Debug, PartialEq, Eq)]
pub enum ToolSource {
    /// The config resolves the name to this registration.
    Registered(ConfigTool),
    /// The config does not resolve the name; look in the toolbox.
    Toolbox,
}

/// Resolve a tool name with the config first: a registered name wins
/// wholesale over the toolbox, which is only consulted when the config does
/// not resolve the name at all.
pub fn resolve_tool(config: &Config, name: &str, p: Platform) -> (r: ToolSource)
    ensures
        match spec_lookup(config@, name@, p) {
            Some(t) => r matches ToolSource::Registered(x) && x@ == t,
            None => r is Toolbox,
        },
{
    match config.lookup(name, p) {
        Some(t) => ToolSource::Registered(ConfigTool { name: t.name.clone(), path: t.path.clone() }),
        None => ToolSource::Toolbox,
    }
}

/// What checking a registration `t` against what was read about its
/// stored path gives: the absolute path when it is a file; otherwise the
/// error naming the registration.
pub open spec fn is_registered_result(
    r: Result<String, Error>,
    t: ConfigToolV,
    absolute: Result<String, IoFailure>,
    exists: bool,
    is_file: bool,
) -> bool {
    match absolute {
        Err(e) => r matches Err(Error::Config(ConfigError::AbsolutePathError(x, y))) && x@ == t.path
            && y@ == e.text@,
        Ok(a) => if !exists {
            r matches Err(Error::Config(ConfigError::RegisteredPathMissing { name, path })) && name@
                == t.name && path@ == t.path
        } else if !is_file {
            r matches Err(Error::Config(ConfigError::RegisteredPathNotFile { name, path })) && name@
                == t.name && path@ == t.path
        } else {
            r matches Ok(x) && x@ == a@
        },
    }
}

/// Check a registration found by [`resolve_tool`] against what was read
/// about its stored path: `absolute` is what making it absolute gave,
/// `exists` and `is_file` are about the absolute path. A broken
/// registration is an error and never falls back to the toolbox.
pub fn check_registered(
    tool: &ConfigTool,
    absolute: Result<String, IoFailure>,
    exists: bool,
    is_file: bool,
) -> (r: Result<String, Error>)
    ensures
        match absolute {
            Err(e) => r == Err::<String, Error>(
                Error::Config(ConfigError::AbsolutePathError(tool.path, e.text)),
            ),
            Ok(a) => if !exists {
                r == Err::<String, Error>(
                    Error::Config(ConfigError::RegisteredPathMissing { name: tool.name, path: tool.path }),
                )
            } else if !is_file {
                r == Err::<String, Error>(
                    Error::Config(ConfigError::RegisteredPathNotFile { name: tool.name, path: tool.path }),
                )
            } else {
                r matches Ok(x) && x@ == a@
            },
        },
        is_registered_result(r, tool@, absolute, exists, is_file),
{
    let path = match absolute {
        Ok(a) => a,
        Err(e) => return Err(Error::Config(ConfigError::AbsolutePathError(tool.path.clone(), e.text))),
    };
    if !exists {
        return Err(Error::Config(ConfigError::RegisteredPathMissing {
            name: tool.name.clone(),
            path: tool.path.clone(),
        }));
    }
    if !is_file {
        return Err(Error::Config(ConfigError::RegisteredPathNotFile {
            name: tool.name.clone(),
            path: tool.path.clone(),
        }));
    }
    Ok(path)
}

/// Whether `r` is the error for `remove` with unregistered `name`: without
/// a readable config a message naming no tools; otherwise one naming the
/// registered names, sorted, with the closest of them as a suggestion.
pub open spec fn is_not_registered_error(
    r: Error,
    config_path: Seq<char>,
    name: Seq<char>,
    config: Option<Seq<ConfigToolV>>,
    p: Platform,
) -> bool {
    r matches Error::RichToolNotFound { message } && match config {
        None => message@ == "tool '"@ + name + "' is not registered in "@ + config_path,
        Some(c) => exists|avail: Seq<String>|
            {
                &&& sorted_by_key(avail)
                &&& names_view(avail).to_multiset() == c.map_values(
                    |t: ConfigToolV| t.name,
                ).to_multiset()
                &&& message@ == tool_not_registered_text(
                    name,
                    config_path,
                    names_view(avail),
                    suggestion_for(name, avail, p),
                )
            },
    }
}

/// Build the error for `remove` with a name that is not registered, with
/// suggestions drawn from the registered names (`config`, when the config
/// could be read).
pub fn tool_not_registered_error(config_path: &str, name: &str, config: Option<&Config>, p: Platform) -> (r:
    Error)
    ensures
        is_not_registered_error(r, config_path@, name@, opt_config(config), p),
{
    let message = match config {
        Some(c) => {
            let available = c.names();
            let s = suggest(name, available.as_slice(), p);
            let m = match &s {
                Some(x) => tool_not_registered(name, config_path, available.as_slice(), Some(x.as_str())),
                None => tool_not_registered(name, config_path, available.as_slice(), None),
            };
            assert(names_view(available@) == available@.map_values(|s: String| s@));
            m
        },
        None => tool_not_registered_no_list(name, config_path),
    };
    Error::RichToolNotFound { message }
}

/// Exit codes of an unresolvable name: 127 when it is reported as not
/// found; 1 when, without a config file, the toolbox directory is missing
/// or is not a directory.
pub proof fn lemma_not_found_exit_code(r: Error, toolbox: Toolbox, name: Seq<char>, f: NotFoundFacts, p: Platform)
    requires
        is_mapped_not_found(r, toolbox, name, f, p),
    ensures
        error_code(r) == (if reported_not_found(f) {
            127int
        } else {
            1int
        }),
{
    if !reported_not_found(f) {
        if let Error::Toolbox(e) = r {
            assert(!(e is ToolNotFound));
        }
    }
}

/// Everything read to resolve a tool name: the config as loaded; about the
/// registration the name resolves to (when it does), what making its path
/// absolute gave and whether that path exists and is a file; about the
/// toolbox, what was read about each lookup candidate (`candidates[i]`
/// about the `i`-th of [`Toolbox::locate_candidates`]), the canonical
/// toolbox directory, what making the located path absolute gave, and what
/// a failed lookup reports from.
pub struct ResolveFacts {
    /// The config as loaded.
    pub loaded: Result<Config, ConfigError>,
    /// The registered path made absolute.
    pub registered_absolute: Result<String, IoFailure>,
    /// Whether the absolute registered path exists.
    pub registered_exists: bool,
    /// Whether the absolute registered path is a file.
    pub registered_is_file: bool,
    /// What was read about each toolbox candidate.
    pub candidates: Vec<PathFacts>,
    /// The canonical toolbox directory.
    pub canonical_dir: Result<String, IoFailure>,
    /// The path the toolbox lookup located, made absolute.
    pub located_absolute: Result<String, IoFailure>,
    /// What a failed toolbox lookup reports from.
    pub not_found: NotFoundFacts,
}

/// What resolving `name` in the toolbox gives: the located path made
/// absolute; a failure to make it absolute names the located path; a
/// failed lookup maps as [`map_tool_error`] does.
pub open spec fn is_toolbox_result(r: Result<String, Error>, toolbox: Toolbox, name: Seq<char>, f: ResolveFacts, p: Platform) -> bool {
    match spec_locate(toolbox.dir_view(), name, facts_view(f.candidates@), io_str(f.canonical_dir), p) {
        Ok(path) => match f.located_absolute {
            Ok(a) => r matches Ok(x) && x@ == a@,
            Err(e) => r matches Err(Error::Toolbox(x)) && x@ == ToolboxErrorV::AbsolutePathError(path, e.text@),
        },
        Err(e) => r matches Err(x) && is_mapped_tool_error(x, toolbox, name, e, f.not_found, p),
    }
}

/// What resolving `name` gives, config first: a config that failed to load
/// is the error; a name the config resolves is checked against its
/// registration and never looked up in the toolbox; any other name is
/// looked up in the toolbox and made absolute.
pub open spec fn is_resolved(r: Result<String, Error>, toolbox: Toolbox, name: Seq<char>, f: ResolveFacts, p: Platform) -> bool {
    match f.loaded {
        Err(e) => r == Err::<String, Error>(Error::Config(e)),
        Ok(c) => match spec_lookup(c@, name, p) {
            Some(t) => is_registered_result(
                r,
                t,
                f.registered_absolute,
                f.registered_exists,
                f.registered_is_file,
            ),
            None => is_toolbox_result(r, toolbox, name, f, p),
        },
    }
}

/// Resolve a tool name to an absolute path from what was read (see
/// [`is_resolved`]).
pub fn resolve_from_facts(toolbox: &Toolbox, name: &str, facts: ResolveFacts, p: Platform) -> (r: Result<String, Error>)
    ensures
        is_resolved(r, *toolbox, name@, facts, p),
{
    let ghost f = facts;
    let ResolveFacts {
        loaded,
        registered_absolute,
        registered_exists,
        registered_is_file,
        candidates,
        canonical_dir,
        located_absolute,
        not_found,
    } = facts;
    let config = match loaded {
        Ok(c) => c,
        Err(e) => return Err(Error::Config(e)),
    };
    match config.lookup(name, p) {
        Some(t) => {
            return check_registered(t, registered_absolute, registered_exists, registered_is_file);
        },
        None => {},
    }
    let located = match locate_tool(toolbox, name, candidates.as_slice(), &canonical_dir, &not_found, p) {
        Ok(path) => path,
        Err(e) => return Err(e),
    };
    resolve_absolute(located, located_absolute)
}

/// Config-first resolution: a config that fails to load is the error; a
/// name the config resolves is checked against its registration alone (the
/// toolbox is never consulted); a name it does not resolve is looked up in
/// the toolbox and made absolute.
pub proof fn lemma_resolution_config_first(
    r: Result<String, Error>,
    toolbox: Toolbox,
    name: Seq<char>,
    f: ResolveFacts,
    p: Platform,
)
    requires
        is_resolved(r, toolbox, name, f, p),
    ensures
        f.loaded matches Err(e) ==> r == Err::<String, Error>(Error::Config(e)),
        f.loaded matches Ok(c) ==> (spec_lookup(c@, name, p) matches Some(t) ==> is_registered_result(
            r,
            t,
            f.registered_absolute,
            f.registered_exists,
            f.registered_is_file,
        )),
        f.loaded matches Ok(c) ==> (spec_lookup(c@, name, p) is None ==> is_toolbox_result(
            r,
            toolbox,
            name,
            f,
            p,
        )),
{
}

} // verus!
