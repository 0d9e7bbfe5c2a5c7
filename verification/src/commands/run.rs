//! The `run` command: resolve a tool config first, and launch it with the
//! arguments after its name passed through.

use vstd::prelude::*;

use crate::commands::{is_resolved, resolve_from_facts, Error, ResolveFacts};
use crate::paths::{opt_view, Platform};
use crate::runner::{
    command, invocation_path, parse_env_pairs, runs_in_powershell, spec_command_line, split_env,
    pairs_view, strs_view, CommandLine, Invocation, RunError, RunOptions,
};
use crate::toolbox::Toolbox;

verus! {

/// Arguments for `run-cli run`.
#[derive(Debug, Clone, PartialEq, Eq)]
pub struct Args {
    /// Name or path of the tool to run.
    pub tool: String,
    /// Run the tool in this working directory.
    pub cwd: Option<String>,
    /// Environment variables for the tool, as `KEY=VALUE`.
    pub env: Vec<String>,
    /// Arguments passed through to the tool.
    pub args: Vec<String>,
}

/// The launch of the tool at `path`: it is invoked as its extension asks
/// (a Windows `.ps1` through PowerShell), with the passthrough arguments
/// verbatim, the working directory asked for, and every `--env` value split
/// at its first `=`; a `--env` value without `=` fails the command, the
/// first such value named.
pub open spec fn is_launch(
    r: Result<(Invocation, CommandLine), Error>,
    args: Args,
    path: Seq<char>,
    p: Platform,
) -> bool {
    &&& r is Ok <==> forall|i: int| 0 <= i < args.env@.len() ==> split_env(#[trigger] args.env@[i]@) is Some
    &&& r matches Ok((inv, cmd)) ==> {
        &&& invocation_path(inv) == path
        &&& (inv is PowerShell) == runs_in_powershell(path, p)
        &&& (cmd.program@, strs_view(cmd.args@)) == spec_command_line(inv, strs_view(args.args@))
        &&& opt_view(cmd.cwd) == opt_view(args.cwd)
        &&& cmd.env@.len() == args.env@.len()
        &&& forall|i: int| 0 <= i < args.env@.len() ==> split_env(#[trigger] args.env@[i]@) == Some(
            (cmd.env@[i].0@, cmd.env@[i].1@),
        )
    }
    &&& r matches Err(e) ==> exists|i: int|
        0 <= i < args.env@.len() && split_env(#[trigger] args.env@[i]@) is None && (forall|j: int|
            0 <= j < i ==> split_env(#[trigger] args.env@[j]@) is Some) && e == Error::Run(
            RunError::InvalidEnv(args.env@[i]),
        )
}

/// Decide a `run` from what was read: resolve the tool config first (see
/// [`is_resolved`]); a failure to resolve fails the command; otherwise the
/// resolved file is launched (see [`is_launch`]).
pub fn run(args: &Args, toolbox: &Toolbox, facts: ResolveFacts, p: Platform) -> (r: Result<
    (Invocation, CommandLine),
    Error,
>)
    ensures
        exists|res: Result<String, Error>|
            #[trigger] is_resolved(res, *toolbox, args.tool@, facts, p) && match res {
                Err(e) => r == Err::<(Invocation, CommandLine), Error>(e),
                Ok(path) => is_launch(r, *args, path@, p),
            },
{
    let ghost f = facts;
    let resolved = resolve_from_facts(toolbox, args.tool.as_str(), facts, p);
    let ghost res = resolved;
    assert(is_resolved(res, *toolbox, args.tool@, f, p));
    let tool_path = match resolved {
        Ok(path) => path,
        Err(e) => return Err(e),
    };
    let invocation = Invocation::from_path(tool_path, p);
    let env = match parse_env_pairs(args.env.as_slice()) {
        Ok(e) => e,
        Err(e) => {
            let r = Err(Error::Run(e));
            assert(is_launch(r, *args, res->Ok_0@, p));
            return r;
        },
    };
    let cwd = match &args.cwd {
        Some(c) => Some(c.clone()),
        None => None,
    };
    let options = RunOptions { cwd, env };
    let cmd = command(&invocation, args.args.as_slice(), &options);
    proof {
        assert(options.env@ == env@);
        assert(pairs_view(cmd.env@).len() == cmd.env@.len());
        assert(pairs_view(options.env@).len() == env@.len());
        assert forall|i: int| 0 <= i < args.env@.len() implies split_env(#[trigger] args.env@[i]@) == Some(
            (cmd.env@[i].0@, cmd.env@[i].1@),
        ) by {
            assert(pairs_view(cmd.env@)[i] == (cmd.env@[i].0@, cmd.env@[i].1@));
            assert(pairs_view(options.env@)[i] == (env@[i].0@, env@[i].1@));
        }
        assert(opt_view(cmd.cwd) == opt_view(args.cwd));
        assert(invocation_path(invocation) == res->Ok_0@);
    }
    let r = Ok((invocation, cmd));
    assert(is_launch(r, *args, res->Ok_0@, p));
    r
}

} // verus!
