//! The command line: the parsed form of the arguments, and the splitter
//! that gives `run` its verbatim passthrough.
//!
//! The `run` subcommand passes everything after the tool name through
//! verbatim, including flags that overlap with run-cli's own options. The
//! raw arguments are therefore split before the argument parser sees them:
//! global options (`-b`/`--bin-dir`/`--config` with their values, and other
//! options) come before `run`; `--cwd`/`--env` (with their values) before
//! the tool name; the first non-option token is the tool name; everything
//! after it is the passthrough segment, kept verbatim. A `--` before the
//! tool name starts the tool name at the next token.

use vstd::prelude::*;

use crate::commands;
use crate::paths::str_eq;

verus! {

/// Where the splitter stands.
#[derive(Clone, Copy, Debug, PartialEq, Eq, Structural)]
pub enum Stage {
    /// Before the subcommand.
    Global,
    /// After a global option that takes a value.
    GlobalValue,
    /// After `run`, before the tool name.
    RunOpts,
    /// After `--cwd` or `--env`.
    RunOptValue,
    /// After a `--` that precedes the tool name.
    AfterDash,
    /// After the tool name.
    Passthrough,
    /// The arguments target another subcommand.
    Other,
}

/// The splitter's state, as a mathematical value. `run_at` and `tool_at`
/// record the positions of `run` and of the tool name.
pub struct SplitV {
    pub stage: Stage,
    pub global: Seq<Seq<char>>,
    pub run_opts: Seq<Seq<char>>,
    pub tool: Seq<char>,
    pub passthrough: Seq<Seq<char>>,
    pub run_at: int,
    pub tool_at: int,
    pub dashed: bool,
}

/// Whether `t` is a global option that takes a value.
pub open spec fn is_global_value_opt(t: Seq<char>) -> bool {
    t == "-b"@ || t == "--bin-dir"@ || t == "--config"@
}

/// Whether `t` is a `run` option that takes a value.
pub open spec fn is_run_value_opt(t: Seq<char>) -> bool {
    t == "--cwd"@ || t == "--env"@
}

/// Whether `t` starts with `-`.
pub open spec fn starts_with_hyphen(t: Seq<char>) -> bool {
    t.len() > 0 && t[0] == '-'
}

/// The state before any token.
pub open spec fn split_start() -> SplitV {
    SplitV {
        stage: Stage::Global,
        global: Seq::empty(),
        run_opts: Seq::empty(),
        tool: Seq::empty(),
        passthrough: Seq::empty(),
        run_at: 0,
        tool_at: 0,
        dashed: false,
    }
}

/// The state after reading token `t` at position `pos`.
pub open spec fn split_step(st: SplitV, t: Seq<char>, pos: int) -> SplitV {
    match st.stage {
        Stage::Global => if is_global_value_opt(t) {
            SplitV { stage: Stage::GlobalValue, global: st.global.push(t), ..st }
        } else if t == "run"@ {
            SplitV { stage: Stage::RunOpts, run_at: pos, ..st }
        } else if starts_with_hyphen(t) {
            SplitV { global: st.global.push(t), ..st }
        } else {
            SplitV { stage: Stage::Other, ..st }
        },
        Stage::GlobalValue => SplitV { stage: Stage::Global, global: st.global.push(t), ..st },
        Stage::RunOpts => if is_run_value_opt(t) {
            SplitV { stage: Stage::RunOptValue, run_opts: st.run_opts.push(t), ..st }
        } else if t == "--"@ {
            SplitV { stage: Stage::AfterDash, dashed: true, ..st }
        } else if starts_with_hyphen(t) {
            SplitV { run_opts: st.run_opts.push(t), ..st }
        } else {
            SplitV { stage: Stage::Passthrough, tool: t, tool_at: pos, ..st }
        },
        Stage::RunOptValue => SplitV { stage: Stage::RunOpts, run_opts: st.run_opts.push(t), ..st },
        Stage::AfterDash => SplitV { stage: Stage::Passthrough, tool: t, tool_at: pos, ..st },
        Stage::Passthrough => SplitV { passthrough: st.passthrough.push(t), ..st },
        Stage::Other => st,
    }
}

/// The state after reading all of `raw`.
pub open spec fn split_fold(raw: Seq<Seq<char>>) -> SplitV
    decreases raw.len(),
{
    if raw.len() == 0 {
        split_start()
    } else {
        split_step(split_fold(raw.drop_last()), raw.last(), raw.len() - 1)
    }
}

/// The result of splitting arguments that target `run`, as a value.
pub struct RunSplitV {
    pub global: Seq<Seq<char>>,
    pub run_opts: Seq<Seq<char>>,
    pub tool: Seq<char>,
    pub passthrough: Seq<Seq<char>>,
}

/// The split of `raw`: present when the arguments target `run` and name a
/// tool.
pub open spec fn spec_split(raw: Seq<Seq<char>>) -> Option<RunSplitV> {
    let st = split_fold(raw);
    if st.stage == Stage::Passthrough {
        Some(
            RunSplitV {
                global: st.global,
                run_opts: st.run_opts,
                tool: st.tool,
                passthrough: st.passthrough,
            },
        )
    } else {
        None
    }
}

/// The result of splitting raw arguments that target `run`.
#[derive(Debug, Clone, PartialEq, Eq)]
pub struct RunSplit {
    /// Global options (and their values) before `run`.
    pub global: Vec<String>,
    /// `run`'s own options (and their values) before the tool name.
    pub run_opts: Vec<String>,
    /// The tool name.
    pub tool: String,
    /// Everything after the tool name, verbatim.
    pub passthrough: Vec<String>,
}

/// The views of a list of strings.
pub open spec fn strs(v: Seq<String>) -> Seq<Seq<char>> {
    v.map_values(|s: String| s@)
}

impl View for RunSplit {
    type V = RunSplitV;

    open spec fn view(&self) -> RunSplitV {
        RunSplitV {
            global: strs(self.global@),
            run_opts: strs(self.run_opts@),
            tool: self.tool@,
            passthrough: strs(self.passthrough@),
        }
    }
}

fn is_lit(t: &str, lit: &str) -> (r: bool)
    ensures
        r == (t@ == lit@),
{
    str_eq(t, lit)
}

/// Whether `t` starts with `-`.
fn hyphen_first(t: &str) -> (r: bool)
    ensures
        r == starts_with_hyphen(t@),
{
    t.unicode_len() > 0 && t.get_char(0) == '-'
}

/// Split raw arguments (without the program name) that target `run`; see
/// the module documentation. `None` when they target another subcommand or
/// name no tool.
pub fn split_run_args(raw: &[String]) -> (r: Option<RunSplit>)
    ensures
        match spec_split(strs(raw@)) {
            Some(s) => r matches Some(x) && x@ == s,
            None => r is None,
        },
{
    let ghost rv = strs(raw@);
    let mut stage = Stage::Global;
    let mut global: Vec<String> = Vec::new();
    let mut run_opts: Vec<String> = Vec::new();
    let mut passthrough: Vec<String> = Vec::new();
    let mut tool = String::new();
    let mut i: usize = 0;
    while i < raw.len()
        invariant
            i <= raw@.len(),
            rv == strs(raw@),
            split_fold(rv.take(i as int)).stage == stage,
            split_fold(rv.take(i as int)).global == strs(global@),
            split_fold(rv.take(i as int)).run_opts == strs(run_opts@),
            split_fold(rv.take(i as int)).passthrough == strs(passthrough@),
            split_fold(rv.take(i as int)).tool == tool@,
        decreases raw@.len() - i,
    {
        let t = &raw[i];
        let ts = t.as_str();
        proof {
            assert(rv.take(i + 1).drop_last() =~= rv.take(i as int));
            assert(rv.take(i + 1).last() == t@);
        }
        let ghost g0 = global@;
        let ghost r0 = run_opts@;
        let ghost p0 = passthrough@;
        match stage {
            Stage::Global => {
                if is_lit(ts, "-b") || is_lit(ts, "--bin-dir") || is_lit(ts, "--config") {
                    global.push(t.clone());
                    stage = Stage::GlobalValue;
                } else if is_lit(ts, "run") {
                    stage = Stage::RunOpts;
                } else if hyphen_first(ts) {
                    global.push(t.clone());
                } else {
                    stage = Stage::Other;
                }
            },
            Stage::GlobalValue => {
                global.push(t.clone());
                stage = Stage::Global;
            },
            Stage::RunOpts => {
                if is_lit(ts, "--cwd") || is_lit(ts, "--env") {
                    run_opts.push(t.clone());
                    stage = Stage::RunOptValue;
                } else if is_lit(ts, "--") {
                    stage = Stage::AfterDash;
                } else if hyphen_first(ts) {
                    run_opts.push(t.clone());
                } else {
                    tool = t.clone();
                    stage = Stage::Passthrough;
                }
            },
            Stage::RunOptValue => {
                run_opts.push(t.clone());
                stage = Stage::RunOpts;
            },
            Stage::AfterDash => {
                tool = t.clone();
                stage = Stage::Passthrough;
            },
            Stage::Passthrough => {
                passthrough.push(t.clone());
            },
            Stage::Other => {},
        }
        assert(strs(global@) =~= (if global@.len() > g0.len() {
            strs(g0).push(t@)
        } else {
            strs(g0)
        }));
        assert(strs(run_opts@) =~= (if run_opts@.len() > r0.len() {
            strs(r0).push(t@)
        } else {
            strs(r0)
        }));
        assert(strs(passthrough@) =~= (if passthrough@.len() > p0.len() {
            strs(p0).push(t@)
        } else {
            strs(p0)
        }));
        i = i + 1;
    }
    assert(rv.take(raw@.len() as int) =~= rv);
    if stage == Stage::Passthrough {
        Some(RunSplit { global, run_opts, tool, passthrough })
    } else {
        None
    }
}

/// The arguments handed to the parser for a split: the program name, the
/// global options, `run`, `run`'s options, `--` and the tool name. The
/// `--` forces the tool name to be read as a positional value.
pub open spec fn spec_rebuild(s: RunSplitV) -> Seq<Seq<char>> {
    seq!["run-cli"@] + s.global + seq!["run"@] + s.run_opts + seq!["--"@, s.tool]
}

/// Rebuild the arguments for the parser from a split, without the
/// passthrough segment.
pub fn rebuild_argv(parts: &RunSplit) -> (r: Vec<String>)
    ensures
        strs(r@) == spec_rebuild(parts@),
{
    let mut r: Vec<String> = Vec::new();
    r.push("run-cli".to_owned());
    let mut i: usize = 0;
    while i < parts.global.len()
        invariant
            i <= parts.global@.len(),
            strs(r@) == seq!["run-cli"@] + strs(parts.global@).take(i as int),
        decreases parts.global@.len() - i,
    {
        let ghost before = r@;
        r.push(parts.global[i].clone());
        assert(strs(r@) =~= strs(before).push(parts.global@[i as int]@));
        assert(strs(parts.global@).take(i + 1) =~= strs(parts.global@).take(i as int).push(
            parts.global@[i as int]@,
        ));
        i = i + 1;
    }
    assert(strs(parts.global@).take(parts.global@.len() as int) =~= strs(parts.global@));
    let ghost before = r@;
    r.push("run".to_owned());
    assert(strs(r@) =~= strs(before).push("run"@));
    let ghost mid = strs(r@);
    let mut j: usize = 0;
    while j < parts.run_opts.len()
        invariant
            j <= parts.run_opts@.len(),
            strs(r@) == mid + strs(parts.run_opts@).take(j as int),
        decreases parts.run_opts@.len() - j,
    {
        let ghost before = r@;
        r.push(parts.run_opts[j].clone());
        assert(strs(r@) =~= strs(before).push(parts.run_opts@[j as int]@));
        assert(strs(parts.run_opts@).take(j + 1) =~= strs(parts.run_opts@).take(j as int).push(
            parts.run_opts@[j as int]@,
        ));
        j = j + 1;
    }
    assert(strs(parts.run_opts@).take(parts.run_opts@.len() as int) =~= strs(parts.run_opts@));
    let ghost before = r@;
    r.push("--".to_owned());
    r.push(parts.tool.clone());
    assert(strs(r@) =~= strs(before).push("--"@).push(parts.tool@));
    assert(strs(r@) =~= spec_rebuild(parts@));
    r
}

/// The parsed command line.
#[derive(Debug, Clone, PartialEq, Eq)]
pub struct Cli {
    /// Custom toolbox directory.
    pub bin_dir: Option<String>,
    /// Custom config file.
    pub config: Option<String>,
    /// The subcommand to run.
    pub command: Command,
}

/// The run-cli subcommands.
#[derive(Debug, Clone, PartialEq, Eq)]
pub enum Command {
    /// Run a tool; arguments after the tool name are passed through.
    Run(commands::run::Args),
    /// List the registered tools and the toolbox contents.
    List(commands::list::Args),
    /// Print the absolute path a tool name resolves to.
    Which(commands::which::Args),
    /// Register a tool in the config.
    Add(commands::add::Args),
    /// Unregister a tool from the config.
    Remove(commands::remove::Args),
    /// Generate shell completion scripts.
    Completions(commands::completions::Args),
}

/// Inject the passthrough segment of a split into a parsed `run` command;
/// any other command is left as it is.
pub fn apply_passthrough(cli: &mut Cli, parts: &RunSplit)
    ensures
        final(cli).bin_dir == old(cli).bin_dir,
        final(cli).config == old(cli).config,
        match old(cli).command {
            Command::Run(a) => final(cli).command matches Command::Run(b) && b.tool == a.tool
                && b.cwd == a.cwd && b.env == a.env && strs(b.args@) == strs(parts.passthrough@),
            _ => final(cli).command == old(cli).command,
        },
{
    match &mut cli.command {
        Command::Run(args) => {
            args.args = parts.passthrough.clone();
        },
        _ => {},
    }
}

/// The splitter keeps every token, in order: the arguments are the global
/// options, `run`, `run`'s options, an optional `--`, the tool name and the
/// passthrough segment, one after the other.
pub proof fn lemma_split_partitions(raw: Seq<Seq<char>>)
    ensures
        spec_split(raw) is Some ==> {
            let st = split_fold(raw);
            &&& 0 <= st.run_at < st.tool_at < raw.len()
            &&& raw.take(st.run_at) == st.global
            &&& raw[st.run_at] == "run"@
            &&& raw.subrange(st.run_at + 1, st.tool_at) == (if st.dashed {
                st.run_opts.push("--"@)
            } else {
                st.run_opts
            })
            &&& raw[st.tool_at] == st.tool
            &&& raw.skip(st.tool_at + 1) == st.passthrough
        },
{
    lemma_split_invariant(raw);
}

/// What the splitter's state says about the tokens read so far.
pub open spec fn split_inv(raw: Seq<Seq<char>>, st: SplitV) -> bool {
    match st.stage {
        Stage::Global | Stage::GlobalValue => st.global == raw && !st.dashed && st.run_opts.len()
            == 0 && st.passthrough.len() == 0,
        Stage::RunOpts | Stage::RunOptValue => {
            &&& 0 <= st.run_at < raw.len()
            &&& raw.take(st.run_at) == st.global
            &&& raw[st.run_at] == "run"@
            &&& raw.skip(st.run_at + 1) == st.run_opts
            &&& !st.dashed
            &&& st.passthrough.len() == 0
        },
        Stage::AfterDash => {
            &&& 0 <= st.run_at < raw.len()
            &&& raw.take(st.run_at) == st.global
            &&& raw[st.run_at] == "run"@
            &&& raw.skip(st.run_at + 1) == st.run_opts.push("--"@)
            &&& st.dashed
            &&& st.passthrough.len() == 0
        },
        Stage::Passthrough => {
            &&& 0 <= st.run_at < st.tool_at < raw.len()
            &&& raw.take(st.run_at) == st.global
            &&& raw[st.run_at] == "run"@
            &&& raw.subrange(st.run_at + 1, st.tool_at) == (if st.dashed {
                st.run_opts.push("--"@)
            } else {
                st.run_opts
            })
            &&& raw[st.tool_at] == st.tool
            &&& raw.skip(st.tool_at + 1) == st.passthrough
        },
        Stage::Other => true,
    }
}

/// The splitter's state after any prefix of the arguments describes the
/// tokens read (see [`split_inv`]).
pub proof fn lemma_split_invariant(raw: Seq<Seq<char>>)
    ensures
        split_inv(raw, split_fold(raw)),
    decreases raw.len(),
{
    if raw.len() == 0 {
        assert(raw =~= Seq::<Seq<char>>::empty());
    } else {
        let prev = raw.drop_last();
        lemma_split_invariant(prev);
        let st = split_fold(prev);
        let t = raw.last();
        let n = raw.len() - 1;
        assert(prev =~= raw.take(n));
        assert(raw =~= prev.push(t));
        match st.stage {
            Stage::Global | Stage::GlobalValue => {
                if st.stage == Stage::Global && t == "run"@ && !is_global_value_opt(t) {
                    assert(raw.take(n) =~= st.global);
                    assert(raw.skip(n + 1) =~= Seq::<Seq<char>>::empty());
                    assert(st.run_opts =~= Seq::<Seq<char>>::empty());
                }
            },
            Stage::RunOpts | Stage::RunOptValue => {
                assert(raw.take(st.run_at) =~= prev.take(st.run_at));
                assert(raw.skip(st.run_at + 1) =~= prev.skip(st.run_at + 1).push(t));
                if st.stage == Stage::RunOpts && !is_run_value_opt(t) && t != "--"@
                    && !starts_with_hyphen(t) {
                    assert(raw.subrange(st.run_at + 1, n) =~= prev.skip(st.run_at + 1));
                    assert(raw.skip(n + 1) =~= Seq::<Seq<char>>::empty());
                    assert(st.passthrough =~= Seq::<Seq<char>>::empty());
                }
            },
            Stage::AfterDash => {
                assert(raw.take(st.run_at) =~= prev.take(st.run_at));
                assert(raw.subrange(st.run_at + 1, n) =~= prev.skip(st.run_at + 1));
                assert(raw.skip(n + 1) =~= Seq::<Seq<char>>::empty());
                assert(st.passthrough =~= Seq::<Seq<char>>::empty());
            },
            Stage::Passthrough => {
                assert(raw.take(st.run_at) =~= prev.take(st.run_at));
                assert(raw.subrange(st.run_at + 1, st.tool_at) =~= prev.subrange(
                    st.run_at + 1,
                    st.tool_at,
                ));
                assert(raw.skip(st.tool_at + 1) =~= prev.skip(st.tool_at + 1).push(t));
            },
            Stage::Other => {},
        }
    }
}

/// Once the tool name is read, every further token joins the passthrough
/// segment, in order, and nothing else changes.
proof fn lemma_fold_passthrough(prefix: Seq<Seq<char>>, rest: Seq<Seq<char>>)
    requires
        split_fold(prefix).stage == Stage::Passthrough,
    ensures
        split_fold(prefix + rest) == (SplitV {
            passthrough: split_fold(prefix).passthrough + rest,
            ..split_fold(prefix)
        }),
    decreases rest.len(),
{
    if rest.len() == 0 {
        assert(prefix + rest =~= prefix);
        assert(split_fold(prefix).passthrough + rest =~= split_fold(prefix).passthrough);
    } else {
        lemma_fold_passthrough(prefix, rest.drop_last());
        assert((prefix + rest).drop_last() =~= prefix + rest.drop_last());
        assert((prefix + rest).last() == rest.last());
        assert(split_fold(prefix).passthrough + rest.drop_last() + seq![rest.last()] =~= split_fold(
            prefix,
        ).passthrough + rest);
        assert((split_fold(prefix).passthrough + rest.drop_last()).push(rest.last())
            =~= split_fold(prefix).passthrough + rest);
    }
}

/// The run-cli global options that take a value are `-b`, `--bin-dir` and
/// `--config`: `run-cli <opt> <v> run <tool> <args...>` (the tool name not
/// starting with `-`) splits into the global options `<opt> <v>`, no `run`
/// options, the tool, and `<args...>` passed through verbatim.
pub proof fn lemma_split_after_global_value(
    opt: Seq<char>,
    v: Seq<char>,
    tool: Seq<char>,
    rest: Seq<Seq<char>>,
)
    requires
        opt == "-b"@ || opt == "--bin-dir"@ || opt == "--config"@,
        !starts_with_hyphen(tool),
    ensures
        spec_split(seq![opt, v, "run"@, tool] + rest) == Some(
            (RunSplitV { global: seq![opt, v], run_opts: Seq::empty(), tool, passthrough: rest }),
        ),
{
    reveal_strlit("-b");
    reveal_strlit("--bin-dir");
    reveal_strlit("--config");
    reveal_strlit("run");
    reveal_strlit("--cwd");
    reveal_strlit("--env");
    reveal_strlit("--");
    let s1 = seq![opt];
    let s2 = seq![opt, v];
    let s3 = seq![opt, v, "run"@];
    let s4 = seq![opt, v, "run"@, tool];
    assert(s1.drop_last() =~= Seq::<Seq<char>>::empty());
    assert(s2.drop_last() =~= s1);
    assert(s3.drop_last() =~= s2);
    assert(s4.drop_last() =~= s3);
    assert(is_global_value_opt(opt));
    assert(split_fold(s1.drop_last()) == split_start());
    assert(split_start().global.push(opt) =~= seq![opt]);
    let f1 = split_fold(s1);
    assert(f1.stage == Stage::GlobalValue && f1.global == seq![opt]);
    let f2 = split_fold(s2);
    assert(f2.stage == Stage::Global && f2.global =~= seq![opt, v]);
    assert("run"@.len() == 3 && "-b"@.len() == 2 && "--bin-dir"@.len() == 9 && "--config"@.len() == 8);
    assert(!is_global_value_opt("run"@));
    let f3 = split_fold(s3);
    assert(f3.stage == Stage::RunOpts && f3.global =~= seq![opt, v] && f3.run_opts.len() == 0);
    assert(!is_run_value_opt(tool)) by {
        if tool == "--cwd"@ || tool == "--env"@ {
            assert(starts_with_hyphen(tool));
        }
    }
    assert(tool != "--"@) by {
        if tool == "--"@ {
            assert(starts_with_hyphen(tool));
        }
    }
    let f4 = split_fold(s4);
    assert(f4.stage == Stage::Passthrough && f4.tool == tool && f4.passthrough.len() == 0);
    lemma_fold_passthrough(s4, rest);
    assert(f4.passthrough + rest =~= rest);
}

} // verus!
