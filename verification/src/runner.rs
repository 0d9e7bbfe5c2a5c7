//! How a resolved tool is launched and how its exit status becomes the
//! process exit code. Spawning the process happens outside this module.

use vstd::prelude::*;

use crate::config::{cat3, cat4};
use crate::toolbox::IoFailure;
use crate::paths::opt_view;
use crate::paths::{extension, spec_extension, str_eq_ignore_ascii_case, eq_ignore_ascii_case, to_chars, Platform};

verus! {

/// How to launch a resolved tool.
#[derive(Debug, Clone, PartialEq, Eq)]
pub enum Invocation {
    /// Spawn the file directly.
    Direct(String),
    /// Run the file through PowerShell (Windows `.ps1` scripts cannot be
    /// spawned directly).
    PowerShell(String),
}

/// Whether a path is launched through PowerShell on `p`: a Windows path
/// whose extension is `ps1` in any ASCII case.
pub open spec fn runs_in_powershell(path: Seq<char>, p: Platform) -> bool {
    p == Platform::Windows && (spec_extension(path, p) matches Some(e) && eq_ignore_ascii_case(
        e,
        "ps1"@,
    ))
}

/// The path an invocation runs.
pub open spec fn invocation_path(i: Invocation) -> Seq<char> {
    match i {
        Invocation::Direct(p) => p@,
        Invocation::PowerShell(p) => p@,
    }
}

/// The arguments given to PowerShell before the script path.
pub open spec fn powershell_prefix() -> Seq<Seq<char>> {
    seq!["-NoProfile"@, "-ExecutionPolicy"@, "Bypass"@, "-File"@]
}

/// The views of a list of strings.
pub open spec fn strs_view(v: Seq<String>) -> Seq<Seq<char>> {
    v.map_values(|s: String| s@)
}

/// The program and arguments an invocation spawns, given the tool's own
/// arguments.
pub open spec fn spec_command_line(i: Invocation, args: Seq<Seq<char>>) -> (Seq<char>, Seq<Seq<char>>) {
    match i {
        Invocation::Direct(p) => (p@, args),
        Invocation::PowerShell(p) => ("powershell"@, powershell_prefix().push(p@) + args),
    }
}

impl Invocation {
    /// Build an invocation from a resolved tool path.
    pub fn from_path(path: String, p: Platform) -> (r: Invocation)
        ensures
            invocation_path(r) == path@,
            (r is PowerShell) == runs_in_powershell(path@, p),
    {
        if p == Platform::Windows {
            match extension(path.as_str(), p) {
                Some(e) => {
                    if str_eq_ignore_ascii_case(e.as_str(), "ps1") {
                        return Invocation::PowerShell(path);
                    }
                },
                None => {},
            }
        }
        Invocation::Direct(path)
    }

    /// The resolved tool path.
    pub fn path(&self) -> (r: &str)
        ensures
            r@ == invocation_path(*self),
    {
        match self {
            Invocation::Direct(p) => p.as_str(),
            Invocation::PowerShell(p) => p.as_str(),
        }
    }

    /// The program to spawn and its arguments, for the tool arguments
    /// `args`.
    pub fn command_line(&self, args: &[String]) -> (r: (String, Vec<String>))
        ensures
            (r.0@, strs_view(r.1@)) == spec_command_line(*self, strs_view(args@)),
    {
        let mut out: Vec<String> = Vec::new();
        let program = match self {
            Invocation::Direct(p) => p.clone(),
            Invocation::PowerShell(p) => {
                out.push("-NoProfile".to_owned());
                out.push("-ExecutionPolicy".to_owned());
                out.push("Bypass".to_owned());
                out.push("-File".to_owned());
                out.push(p.clone());
                "powershell".to_owned()
            },
        };
        let ghost head = strs_view(out@);
        let mut i: usize = 0;
        while i < args.len()
            invariant
                i <= args@.len(),
                strs_view(out@) == head + strs_view(args@).take(i as int),
            decreases args@.len() - i,
        {
            let ghost before = out@;
            out.push(args[i].clone());
            assert(strs_view(out@) =~= strs_view(before).push(args@[i as int]@));
            assert(strs_view(args@).take(i + 1) =~= strs_view(args@).take(i as int).push(
                args@[i as int]@,
            ));
            i = i + 1;
        }
        assert(strs_view(args@).take(args@.len() as int) =~= strs_view(args@));
        proof {
            match self {
                Invocation::Direct(p) => {
                    assert(head =~= Seq::<Seq<char>>::empty());
                    assert(strs_view(out@) =~= strs_view(args@));
                },
                Invocation::PowerShell(p) => {
                    assert(head =~= powershell_prefix().push(p@));
                },
            }
        }
        (program, out)
    }
}

/// Errors produced while launching or waiting for a tool.
#[derive(Debug, Clone, PartialEq, Eq)]
pub enum RunError {
    /// The tool could not be spawned (path, error text).
    Spawn(String, String),
    /// Waiting for the tool failed (path, error text).
    Wait(String, String),
    /// A `--env` value is not of the form `KEY=VALUE`.
    InvalidEnv(String),
}

/// The text of a run error.
pub open spec fn run_error_text(e: RunError) -> Seq<char> {
    match e {
        RunError::Spawn(p, x) => "failed to spawn "@ + p@ + ": "@ + x@,
        RunError::Wait(p, x) => "failed to wait for "@ + p@ + ": "@ + x@,
        RunError::InvalidEnv(v) => "invalid --env value '"@ + v@ + "'; expected KEY=VALUE"@,
    }
}

impl RunError {
    /// The message printed for this error.
    pub fn message(&self) -> (r: String)
        ensures
            r@ == run_error_text(*self),
    {
        match self {
            RunError::Spawn(p, x) => cat4("failed to spawn ", p, ": ", x),
            RunError::Wait(p, x) => cat4("failed to wait for ", p, ": ", x),
            RunError::InvalidEnv(v) => cat3("invalid --env value '", v, "'; expected KEY=VALUE"),
        }
    }
}

/// Options controlling how a tool is executed.
#[derive(Debug, Clone, PartialEq, Eq)]
pub struct RunOptions {
    /// Working directory for the child process.
    pub cwd: Option<String>,
    /// Environment variables to set for the child process.
    pub env: Vec<(String, String)>,
}

impl RunOptions {
    /// No working directory and no extra variables.
    pub fn new() -> (r: RunOptions)
        ensures
            r.cwd is None,
            r.env@.len() == 0,
    {
        RunOptions { cwd: None, env: Vec::new() }
    }
}

/// A `KEY=VALUE` value split at its first `=`.
pub open spec fn split_env(v: Seq<char>) -> Option<(Seq<char>, Seq<char>)> {
    match v.index_of_first('=') {
        Some(i) => Some((v.take(i), v.skip(i + 1))),
        None => None,
    }
}

/// Split one `KEY=VALUE` value at its first `=`.
pub fn split_env_value(value: &str) -> (r: Option<(String, String)>)
    ensures
        match r {
            Some(kv) => split_env(value@) == Some((kv.0@, kv.1@)),
            None => split_env(value@) is None,
        },
{
    let c = to_chars(value);
    let mut i: usize = 0;
    proof {
        value@.index_of_first_ensures('=');
    }
    while i < c.len()
        invariant
            c@ == value@,
            i <= c.len(),
            forall|j: int| 0 <= j < i ==> value@[j] != '=',
        decreases c.len() - i,
    {
        if c[i] == '=' {
            assert(value@[i as int] == '=');
            assert(value@.contains('='));
            proof {
                value@.index_of_first_ensures('=');
            }
            let ghost idx = value@.index_of_first('=')->0;
            assert(value@[idx] == '=');
            assert(idx == i);
            let key = value.substring_char(0, i).to_owned();
            let rest = value.substring_char(i + 1, c.len()).to_owned();
            assert(key@ =~= value@.take(i as int));
            assert(rest@ =~= value@.skip(i + 1));
            return Some((key, rest));
        }
        i = i + 1;
    }
    proof {
        value@.index_of_first_ensures('=');
    }
    assert(!value@.contains('='));
    None
}

/// Parse `--env` values of the form `KEY=VALUE`: every value split at its
/// first `=`, or an error naming the first value without one.
pub fn parse_env_pairs(values: &[String]) -> (r: Result<Vec<(String, String)>, RunError>)
    ensures
        match r {
            Ok(pairs) => pairs@.len() == values@.len() && forall|i: int|
                0 <= i < values@.len() ==> split_env(#[trigger] values@[i]@) == Some(
                    (pairs@[i].0@, pairs@[i].1@),
                ),
            Err(e) => exists|i: int|
                0 <= i < values@.len() && split_env(#[trigger] values@[i]@) is None && (forall|
                    j: int,
                |
                    0 <= j < i ==> split_env(#[trigger] values@[j]@) is Some) && e
                    == RunError::InvalidEnv(values@[i]),
        },
{
    let mut pairs: Vec<(String, String)> = Vec::new();
    let mut i: usize = 0;
    while i < values.len()
        invariant
            i <= values@.len(),
            pairs@.len() == i,
            forall|j: int|
                0 <= j < i ==> split_env(#[trigger] values@[j]@) == Some(
                    (pairs@[j].0@, pairs@[j].1@),
                ),
        decreases values@.len() - i,
    {
        match split_env_value(values[i].as_str()) {
            Some(kv) => {
                pairs.push(kv);
            },
            None => {
                return Err(RunError::InvalidEnv(values[i].clone()));
            },
        }
        i = i + 1;
    }
    Ok(pairs)
}

/// The exit code reported for a finished tool: its own code, else 128 plus
/// the signal that ended it, else 1.
pub open spec fn spec_exit_code(code: Option<i32>, signal: Option<i32>) -> int {
    match code {
        Some(c) => c as int,
        None => match signal {
            Some(s) => 128 + s,
            None => 1,
        },
    }
}

/// The exit code reported for a finished tool (see [`spec_exit_code`]).
pub fn exit_code(code: Option<i32>, signal: Option<i32>) -> (r: i32)
    requires
        code is None ==> (signal matches Some(s) ==> s <= i32::MAX - 128),
    ensures
        r as int == spec_exit_code(code, signal),
{
    match code {
        Some(c) => c,
        None => match signal {
            Some(s) => 128 + s,
            None => 1,
        },
    }
}

/// How a launched tool ended: it could not be spawned, or it finished
/// with an exit code or was ended by a signal.
#[derive(Clone, Debug, PartialEq, Eq)]
pub enum Outcome {
    /// Spawning failed.
    SpawnFailed(IoFailure),
    /// The tool finished.
    Finished {
        /// Its exit code, when it exited.
        code: Option<i32>,
        /// The signal that ended it, when one did.
        signal: Option<i32>,
    },
}

/// The exit code of a run of `invocation` that ended as `outcome`, or the
/// spawn failure naming the tool's path.
pub fn execute(invocation: &Invocation, outcome: &Outcome) -> (r: Result<i32, RunError>)
    requires
        outcome matches Outcome::Finished { code: None, signal: Some(s) } ==> s <= i32::MAX - 128,
    ensures
        match outcome {
            Outcome::SpawnFailed(e) => r matches Err(RunError::Spawn(path, text)) && path@
                == invocation_path(*invocation) && text@ == e.text@,
            Outcome::Finished { code, signal } => r matches Ok(c) && c as int == spec_exit_code(
                *code,
                *signal,
            ),
        },
{
    match outcome {
        Outcome::SpawnFailed(e) => Err(RunError::Spawn(invocation.path().to_owned(), e.text.clone())),
        Outcome::Finished { code, signal } => Ok(exit_code(*code, *signal)),
    }
}

/// The views of a list of pairs of strings.
pub open spec fn pairs_view(v: Seq<(String, String)>) -> Seq<(Seq<char>, Seq<char>)> {
    v.map_values(|kv: (String, String)| (kv.0@, kv.1@))
}

/// Everything a tool is spawned with: the program, its arguments, the
/// working directory (when one is set) and the variables set over the
/// inherited environment, in order.
pub struct CommandLine {
    /// The program to spawn.
    pub program: String,
    /// Its arguments.
    pub args: Vec<String>,
    /// The working directory, when one is set.
    pub cwd: Option<String>,
    /// Variables set for the tool.
    pub env: Vec<(String, String)>,
}

/// The command that runs `invocation` with the tool arguments `args` under
/// `options`.
pub fn command(invocation: &Invocation, args: &[String], options: &RunOptions) -> (r: CommandLine)
    ensures
        (r.program@, strs_view(r.args@)) == spec_command_line(*invocation, strs_view(args@)),
        opt_view(r.cwd) == opt_view(options.cwd),
        pairs_view(r.env@) == pairs_view(options.env@),
{
    let (program, argv) = invocation.command_line(args);
    let cwd = match &options.cwd {
        Some(c) => Some(c.clone()),
        None => None,
    };
    let mut env: Vec<(String, String)> = Vec::new();
    let mut i: usize = 0;
    while i < options.env.len()
        invariant
            i <= options.env@.len(),
            pairs_view(env@) == pairs_view(options.env@).take(i as int),
        decreases options.env@.len() - i,
    {
        let (k, v) = &options.env[i];
        let ghost before = env@;
        env.push((k.clone(), v.clone()));
        assert(pairs_view(env@) =~= pairs_view(before).push((k@, v@)));
        assert(pairs_view(options.env@).take(i + 1) =~= pairs_view(options.env@).take(i as int).push(
            (k@, v@),
        ));
        i = i + 1;
    }
    assert(pairs_view(options.env@).take(options.env@.len() as int) =~= pairs_view(options.env@));
    CommandLine { program, args: argv, cwd, env }
}

} // verus!
