//! The config file's registry: named registrations of external tools.
//!
//! A registration maps a name to an absolute path. A query resolves like a
//! toolbox name: a query with an extension matches exactly; a bare query
//! tries the platform's extension candidates in order and then the bare
//! name. Names match ignoring ASCII case on Windows and exactly elsewhere.
//! Reading and writing the file happens outside this module.

use vstd::prelude::*;

use crate::toolbox::{tool_extensions, tool_exts, IoFailure, IoKind};
use crate::order::{lemma_map_multiset, sort_by_key, sorted_by_key};
use crate::paths::{
    eq_ignore_ascii_case, extension, is_single_name, join, spec_extension, spec_is_single_name,
    spec_join, str_eq, str_eq_ignore_ascii_case, Platform,
};

verus! {

broadcast use vstd::seq_lib::group_to_multiset_ensures;

/// File name of the default config file.
pub const DEFAULT_CONFIG_FILE: &'static str = "config.toml";

/// Environment variable overriding the config file location.
pub const ENV_CONFIG: &'static str = "RUN_CLI_CONFIG";

/// A registration, as a mathematical value.
pub struct ConfigToolV {
    /// The registered name.
    pub name: Seq<char>,
    /// The path it resolves to.
    pub path: Seq<char>,
}

/// A single registered tool.
#[derive(Debug, Clone, PartialEq, Eq)]
pub struct ConfigTool {
    /// Registered name, a single file name component.
    pub name: String,
    /// Absolute path the name resolves to.
    pub path: String,
}

impl View for ConfigTool {
    type V = ConfigToolV;

    open spec fn view(&self) -> ConfigToolV {
        ConfigToolV { name: self.name@, path: self.path@ }
    }
}

/// The config file contents.
#[derive(Debug, Clone, PartialEq, Eq)]
pub struct Config {
    /// Registered tools, in file order.
    pub tools: Vec<ConfigTool>,
}

impl View for Config {
    type V = Seq<ConfigToolV>;

    open spec fn view(&self) -> Seq<ConfigToolV> {
        self.tools@.map_values(|t: ConfigTool| t@)
    }
}

/// The names a query is matched against, in order: the query itself when it
/// has an extension; otherwise the query with each extension candidate,
/// then the bare query.
pub open spec fn spec_candidate_names(q: Seq<char>, p: Platform) -> Seq<Seq<char>> {
    if spec_extension(q, p) is Some {
        seq![q]
    } else {
        tool_exts(p).map_values(|e: Seq<char>| q + seq!['.'] + e).push(q)
    }
}

/// Whether two names are the same name on `p`.
pub open spec fn names_eq(a: Seq<char>, b: Seq<char>, p: Platform) -> bool {
    if p == Platform::Windows {
        eq_ignore_ascii_case(a, b)
    } else {
        a == b
    }
}

/// The index of the first registration whose name is `cand`.
pub open spec fn first_match(tools: Seq<ConfigToolV>, cand: Seq<char>, p: Platform) -> Option<int>
    decreases tools.len(),
{
    if tools.len() == 0 {
        None
    } else {
        match first_match(tools.drop_last(), cand, p) {
            Some(i) => Some(i),
            None => if names_eq(tools.last().name, cand, p) {
                Some(tools.len() - 1)
            } else {
                None
            },
        }
    }
}

/// The first match of the first candidate that has one.
pub open spec fn index_in(tools: Seq<ConfigToolV>, cands: Seq<Seq<char>>, p: Platform) -> Option<
    int,
>
    decreases cands.len(),
{
    if cands.len() == 0 {
        None
    } else {
        match first_match(tools, cands[0], p) {
            Some(i) => Some(i),
            None => index_in(tools, cands.drop_first(), p),
        }
    }
}

/// The index of the registration that `name` resolves to.
pub open spec fn resolve_index(tools: Seq<ConfigToolV>, name: Seq<char>, p: Platform) -> Option<
    int,
> {
    index_in(tools, spec_candidate_names(name, p), p)
}

/// The registration that `name` resolves to.
pub open spec fn spec_lookup(tools: Seq<ConfigToolV>, name: Seq<char>, p: Platform) -> Option<
    ConfigToolV,
> {
    match resolve_index(tools, name, p) {
        Some(i) => Some(tools[i]),
        None => None,
    }
}

/// The registry after inserting or replacing `t`.
pub open spec fn spec_upsert(tools: Seq<ConfigToolV>, t: ConfigToolV, p: Platform) -> Seq<
    ConfigToolV,
> {
    match resolve_index(tools, t.name, p) {
        Some(i) => tools.update(i, t),
        None => tools.push(t),
    }
}

/// The registry after removing what `name` resolves to, and what was
/// removed.
pub open spec fn spec_remove(tools: Seq<ConfigToolV>, name: Seq<char>, p: Platform) -> (
    Seq<ConfigToolV>,
    Option<ConfigToolV>,
) {
    match resolve_index(tools, name, p) {
        Some(i) => (tools.remove(i), Some(tools[i])),
        None => (tools, None),
    }
}

/// The first match is a registration named `cand`, with none before it;
/// no first match means no registration is named `cand`.
pub proof fn lemma_first_match(tools: Seq<ConfigToolV>, cand: Seq<char>, p: Platform)
    ensures
        first_match(tools, cand, p) matches Some(i) ==> {
            &&& 0 <= i < tools.len()
            &&& names_eq(tools[i].name, cand, p)
            &&& forall|j: int| 0 <= j < i ==> !names_eq(#[trigger] tools[j].name, cand, p)
        },
        first_match(tools, cand, p) is None ==> forall|j: int|
            0 <= j < tools.len() ==> !names_eq(#[trigger] tools[j].name, cand, p),
    decreases tools.len(),
{
    if tools.len() > 0 {
        lemma_first_match(tools.drop_last(), cand, p);
        assert forall|j: int| 0 <= j < tools.len() - 1 implies tools[j] == tools.drop_last()[j] by {}
    }
}

/// The match found for a list of candidates is the first match of the
/// earliest candidate that has one.
pub proof fn lemma_index_in(tools: Seq<ConfigToolV>, cands: Seq<Seq<char>>, p: Platform)
    ensures
        index_in(tools, cands, p) matches Some(i) ==> exists|k: int|
            0 <= k < cands.len() && first_match(tools, #[trigger] cands[k], p) == Some(i) && forall|
                m: int,
            |
                0 <= m < k ==> first_match(tools, #[trigger] cands[m], p) is None,
        index_in(tools, cands, p) is None ==> forall|k: int|
            0 <= k < cands.len() ==> first_match(tools, #[trigger] cands[k], p) is None,
    decreases cands.len(),
{
    if cands.len() > 0 {
        lemma_index_in(tools, cands.drop_first(), p);
        let rest = cands.drop_first();
        assert forall|k: int| 0 <= k < rest.len() implies rest[k] == cands[k + 1] by {}
        match first_match(tools, cands[0], p) {
            Some(i) => {
                assert(first_match(tools, cands[0], p) == Some(i));
            },
            None => {
                if let Some(i) = index_in(tools, rest, p) {
                    let k = choose|k: int|
                        0 <= k < rest.len() && first_match(tools, #[trigger] rest[k], p) == Some(i)
                            && forall|m: int|
                            0 <= m < k ==> first_match(tools, #[trigger] rest[m], p) is None;
                    assert(first_match(tools, cands[k + 1], p) == Some(i));
                    assert forall|m: int| 0 <= m < k + 1 implies first_match(
                        tools,
                        #[trigger] cands[m],
                        p,
                    ) is None by {
                        if m > 0 {
                            assert(cands[m] == rest[m - 1]);
                        }
                    }
                } else {
                    assert forall|k: int| 0 <= k < cands.len() implies first_match(
                        tools,
                        #[trigger] cands[k],
                        p,
                    ) is None by {
                        if k > 0 {
                            assert(cands[k] == rest[k - 1]);
                        }
                    }
                }
            },
        }
    }
}

/// Whether two names are the same name on `p`.
pub fn names_equal(a: &str, b: &str, p: Platform) -> (r: bool)
    ensures
        r == names_eq(a@, b@, p),
{
    match p {
        Platform::Windows => str_eq_ignore_ascii_case(a, b),
        Platform::Unix => str_eq(a, b),
    }
}

/// The names a query is matched against, in order.
pub fn candidate_names(query: &str, p: Platform) -> (r: Vec<String>)
    ensures
        r@.map_values(|s: String| s@) == spec_candidate_names(query@, p),
{
    if extension(query, p).is_some() {
        let mut r: Vec<String> = Vec::new();
        r.push(query.to_owned());
        assert(r@.map_values(|s: String| s@) =~= seq![query@]);
        return r;
    }
    let exts = tool_extensions(p);
    let ghost ev = exts@.map_values(|e: &str| e@);
    let mut r: Vec<String> = Vec::new();
    let mut i: usize = 0;
    while i < exts.len()
        invariant
            ev == exts@.map_values(|e: &str| e@),
            i <= exts.len(),
            r@.map_values(|s: String| s@) == ev.take(i as int).map_values(
                |e: Seq<char>| query@ + seq!['.'] + e,
            ),
        decreases exts.len() - i,
    {
        let mut name = query.to_owned();
        name.append(".");
        name.append(exts[i]);
        proof {
            reveal_strlit(".");
            assert(ev[i as int] == exts@[i as int]@);
            assert(name@ =~= query@ + seq!['.'] + ev[i as int]);
        }
        let ghost old_r = r@;
        r.push(name);
        assert(ev.take(i + 1) =~= ev.take(i as int).push(ev[i as int]));
        assert(r@.map_values(|s: String| s@) =~= old_r.map_values(|s: String| s@).push(name@));
        assert(ev.take(i + 1).map_values(|e: Seq<char>| query@ + seq!['.'] + e) =~= ev.take(
            i as int,
        ).map_values(|e: Seq<char>| query@ + seq!['.'] + e).push(query@ + seq!['.'] + ev[i as int]));
        assert(r@.map_values(|s: String| s@) =~= ev.take(i + 1).map_values(
            |e: Seq<char>| query@ + seq!['.'] + e,
        ));
        i = i + 1;
    }
    r.push(query.to_owned());
    assert(ev.take(exts.len() as int) =~= ev);
    assert(r@.map_values(|s: String| s@) =~= spec_candidate_names(query@, p));
    r
}

/// The index of the first registration in `tools` whose name is `cand`.
fn first_match_exec(tools: &Vec<ConfigTool>, cand: &str, p: Platform) -> (r: Option<usize>)
    ensures
        r matches Some(i) ==> first_match(tools@.map_values(|t: ConfigTool| t@), cand@, p) == Some(
            i as int,
        ),
        r is None ==> first_match(tools@.map_values(|t: ConfigTool| t@), cand@, p) is None,
{
    let ghost tv = tools@.map_values(|t: ConfigTool| t@);
    let mut i: usize = 0;
    while i < tools.len()
        invariant
            tv == tools@.map_values(|t: ConfigTool| t@),
            i <= tools.len(),
            first_match(tv.take(i as int), cand@, p) is None,
        decreases tools.len() - i,
    {
        assert(tv.take(i + 1).drop_last() =~= tv.take(i as int));
        assert(tv.take(i + 1).last() == tools@[i as int]@);
        if names_equal(tools[i].name.as_str(), cand, p) {
            proof {
                lemma_first_match(tv.take(i + 1), cand@, p);
                lemma_first_match_prefix(tv, cand@, p, i + 1);
            }
            return Some(i);
        }
        i = i + 1;
    }
    assert(tv.take(tools.len() as int) =~= tv);
    None
}

/// A match among the first `k` registrations is the first match of all.
pub proof fn lemma_first_match_prefix(tools: Seq<ConfigToolV>, cand: Seq<char>, p: Platform, k: int)
    requires
        0 <= k <= tools.len(),
        first_match(tools.take(k), cand, p) is Some,
    ensures
        first_match(tools, cand, p) == first_match(tools.take(k), cand, p),
    decreases tools.len() - k,
{
    if k < tools.len() {
        assert(tools.take(k + 1).drop_last() =~= tools.take(k));
        lemma_first_match_prefix(tools, cand, p, k + 1);
    } else {
        assert(tools.take(k) =~= tools);
    }
}

impl Config {
    /// An empty registry.
    pub fn new() -> (r: Config)
        ensures
            r@ == Seq::<ConfigToolV>::empty(),
    {
        let r = Config { tools: Vec::new() };
        assert(r@ =~= Seq::<ConfigToolV>::empty());
        r
    }

    /// The config at `path`, from what reading it gave: the file's parsed
    /// contents (or why parsing failed), or why it could not be read. A
    /// missing file is an empty registry.
    pub fn load(path: &str, read: Result<Result<Config, String>, IoFailure>) -> (r: Result<Config, ConfigError>)
        ensures
            match read {
                Ok(Ok(c)) => r matches Ok(x) && x@ == c@,
                Ok(Err(text)) => r matches Err(ConfigError::ParseError(x, t)) && x@ == path@ && t@ == text@,
                Err(e) => if e.kind == IoKind::NotFound {
                    r matches Ok(x) && x@ == Seq::<ConfigToolV>::empty()
                } else {
                    r matches Err(ConfigError::ReadError(x, t)) && x@ == path@ && t@ == e.text@
                },
            },
    {
        match read {
            Ok(Ok(c)) => Ok(c),
            Ok(Err(text)) => Err(ConfigError::ParseError(path.to_owned(), text)),
            Err(e) => {
                if e.kind == IoKind::NotFound {
                    Ok(Config::new())
                } else {
                    Err(ConfigError::ReadError(path.to_owned(), e.text))
                }
            },
        }
    }

    /// The index of the registration that `name` resolves to.
    fn index_of(&self, name: &str, p: Platform) -> (r: Option<usize>)
        ensures
            r matches Some(i) ==> resolve_index(self@, name@, p) == Some(i as int),
            r is None ==> resolve_index(self@, name@, p) is None,
    {
        let cands = candidate_names(name, p);
        let ghost cv = cands@.map_values(|s: String| s@);
        let mut k: usize = 0;
        assert(cv.skip(0) =~= cv);
        while k < cands.len()
            invariant
                cv == cands@.map_values(|s: String| s@),
                cv == spec_candidate_names(name@, p),
                k <= cands.len(),
                index_in(self@, cv, p) == index_in(self@, cv.skip(k as int), p),
            decreases cands.len() - k,
        {
            let ghost rest = cv.skip(k as int);
            assert(rest[0] == cands@[k as int]@);
            assert(rest.drop_first() =~= cv.skip(k + 1));
            match first_match_exec(&self.tools, cands[k].as_str(), p) {
                Some(i) => {
                    return Some(i);
                },
                None => {},
            }
            k = k + 1;
        }
        None
    }

    /// Resolve a query to a registered tool (see the module documentation).
    pub fn lookup(&self, name: &str, p: Platform) -> (r: Option<&ConfigTool>)
        ensures
            match r {
                Some(t) => spec_lookup(self@, name@, p) == Some(t@),
                None => spec_lookup(self@, name@, p) is None,
            },
    {
        match self.index_of(name, p) {
            Some(i) => {
                proof {
                    lemma_index_in(self@, spec_candidate_names(name@, p), p);
                    lemma_index_bound(self@, name@, p);
                }
                Some(&self.tools[i])
            },
            None => None,
        }
    }

    /// Insert `tool`, or replace the registration its name resolves to.
    pub fn upsert(&mut self, tool: ConfigTool, p: Platform)
        ensures
            final(self)@ == spec_upsert(old(self)@, tool@, p),
    {
        match self.index_of(tool.name.as_str(), p) {
            Some(i) => {
                proof {
                    lemma_index_bound(self@, tool.name@, p);
                }
                let ghost before = self.tools@;
                self.tools.set(i, tool);
                assert(self@ =~= old(self)@.update(i as int, tool@));
            },
            None => {
                self.tools.push(tool);
                assert(self@ =~= old(self)@.push(tool@));
            },
        }
    }

    /// Remove the registration the name resolves to, returning it.
    pub fn remove(&mut self, name: &str, p: Platform) -> (r: Option<ConfigTool>)
        ensures
            final(self)@ == spec_remove(old(self)@, name@, p).0,
            match spec_remove(old(self)@, name@, p).1 {
                Some(t) => r matches Some(x) && x@ == t,
                None => r is None,
            },
    {
        match self.index_of(name, p) {
            Some(i) => {
                proof {
                    lemma_index_bound(self@, name@, p);
                }
                let t = self.tools.remove(i);
                assert(self@ =~= old(self)@.remove(i as int));
                assert(t@ == old(self)@[i as int]);
                Some(t)
            },
            None => None,
        }
    }

    /// All registered names, sorted.
    pub fn names(&self) -> (r: Vec<String>)
        ensures
            r@.map_values(|s: String| s@).to_multiset() == self@.map_values(
                |t: ConfigToolV| t.name,
            ).to_multiset(),
            sorted_by_key(r@),
    {
        let mut names: Vec<String> = Vec::new();
        let mut i: usize = 0;
        while i < self.tools.len()
            invariant
                i <= self.tools.len(),
                names@.map_values(|s: String| s@) == self@.take(i as int).map_values(
                    |t: ConfigToolV| t.name,
                ),
            decreases self.tools.len() - i,
        {
            let ghost old_names = names@;
            let nm = self.tools[i].name.clone();
            names.push(nm);
            assert(self@[i as int] == self.tools@[i as int]@);
            assert(self@.take(i + 1) =~= self@.take(i as int).push(self@[i as int]));
            assert(names@.map_values(|s: String| s@) =~= old_names.map_values(|s: String| s@).push(
                nm@,
            ));
            assert(self@.take(i + 1).map_values(|t: ConfigToolV| t.name) =~= self@.take(
                i as int,
            ).map_values(|t: ConfigToolV| t.name).push(self@[i as int].name));
            assert(names@.map_values(|s: String| s@) =~= self@.take(i + 1).map_values(
                |t: ConfigToolV| t.name,
            ));
            i = i + 1;
        }
        assert(self@.take(self.tools.len() as int) =~= self@);
        let r = sort_by_key(names);
        proof {
            lemma_map_multiset(names@, r@, |s: String| s@);
        }
        r
    }
}

/// A resolved index is in range.
pub proof fn lemma_index_bound(tools: Seq<ConfigToolV>, name: Seq<char>, p: Platform)
    ensures
        resolve_index(tools, name, p) matches Some(i) ==> 0 <= i < tools.len(),
{
    lemma_index_in(tools, spec_candidate_names(name, p), p);
    if let Some(i) = resolve_index(tools, name, p) {
        let cands = spec_candidate_names(name, p);
        let k = choose|k: int|
            0 <= k < cands.len() && first_match(tools, #[trigger] cands[k], p) == Some(i) && forall|
                m: int,
            |
                0 <= m < k ==> first_match(tools, #[trigger] cands[m], p) is None;
        lemma_first_match(tools, cands[k], p);
    }
}

/// Errors produced by config operations. Paths and underlying error texts
/// are carried as strings.
#[derive(Debug, Clone, PartialEq, Eq)]
pub enum ConfigError {
    /// Reading the config file failed.
    ReadError(String, String),
    /// Writing the config file failed.
    WriteError(String, String),
    /// The config file is not valid TOML.
    ParseError(String, String),
    /// Serializing the config failed.
    SerializeError(String, String),
    /// Making a path absolute failed.
    AbsolutePathError(String, String),
    /// An add name is not a single file name.
    InvalidToolName(String),
    /// The source of an add does not exist.
    SourceMissing(String),
    /// The source of an add is not a file (directories are not supported).
    SourceNotFile(String),
    /// The name is already registered and overwriting was not asked for.
    DuplicateName(String),
    /// A registered tool's path no longer exists.
    RegisteredPathMissing {
        /// The registered name.
        name: String,
        /// The stored path.
        path: String,
    },
    /// A registered tool's path exists but is not a file.
    RegisteredPathNotFile {
        /// The registered name.
        name: String,
        /// The stored path.
        path: String,
    },
}

/// The text of a config error.
pub open spec fn config_error_text(e: ConfigError) -> Seq<char> {
    match e {
        ConfigError::ReadError(p, x) => "failed to read config "@ + p@ + ": "@ + x@,
        ConfigError::WriteError(p, x) => "failed to write config "@ + p@ + ": "@ + x@,
        ConfigError::ParseError(p, x) => "failed to parse config "@ + p@ + ": "@ + x@,
        ConfigError::SerializeError(p, x) => "failed to serialize config "@ + p@ + ": "@ + x@,
        ConfigError::AbsolutePathError(p, x) => "failed to resolve absolute path for "@ + p@
            + ": "@ + x@,
        ConfigError::InvalidToolName(n) => "invalid tool name '"@ + n@
            + "': must be a single file name"@,
        ConfigError::SourceMissing(p) => "source not found: "@ + p@,
        ConfigError::SourceNotFile(p) => "source is not a file: "@ + p@,
        ConfigError::DuplicateName(n) => "tool '"@ + n@
            + "' is already registered; use --force to overwrite"@,
        ConfigError::RegisteredPathMissing { name, path } => "registered tool '"@ + name@
            + "' path not found: "@ + path@,
        ConfigError::RegisteredPathNotFile { name, path } => "registered tool '"@ + name@
            + "' is not a file: "@ + path@,
    }
}

/// `a` followed by `b`.
pub fn cat(a: &str, b: &str) -> (r: String)
    ensures
        r@ == a@ + b@,
{
    let mut r = a.to_owned();
    r.append(b);
    r
}

/// `a`, `b` and `c` in a row.
pub fn cat3(a: &str, b: &str, c: &str) -> (r: String)
    ensures
        r@ == a@ + b@ + c@,
{
    let mut r = a.to_owned();
    r.append(b);
    r.append(c);
    r
}

/// `a`, `b`, `c` and `d` in a row.
pub fn cat4(a: &str, b: &str, c: &str, d: &str) -> (r: String)
    ensures
        r@ == a@ + b@ + c@ + d@,
{
    let mut r = a.to_owned();
    r.append(b);
    r.append(c);
    r.append(d);
    r
}

impl ConfigError {
    /// The message printed for this error.
    pub fn message(&self) -> (r: String)
        ensures
            r@ == config_error_text(*self),
    {
        match self {
            ConfigError::ReadError(p, x) => cat4("failed to read config ", p, ": ", x),
            ConfigError::WriteError(p, x) => cat4("failed to write config ", p, ": ", x),
            ConfigError::ParseError(p, x) => cat4("failed to parse config ", p, ": ", x),
            ConfigError::SerializeError(p, x) => cat4("failed to serialize config ", p, ": ", x),
            ConfigError::AbsolutePathError(p, x) => cat4(
                "failed to resolve absolute path for ",
                p,
                ": ",
                x,
            ),
            ConfigError::InvalidToolName(n) => cat3(
                "invalid tool name '",
                n,
                "': must be a single file name",
            ),
            ConfigError::SourceMissing(p) => cat("source not found: ", p),
            ConfigError::SourceNotFile(p) => cat("source is not a file: ", p),
            ConfigError::DuplicateName(n) => cat3(
                "tool '",
                n,
                "' is already registered; use --force to overwrite",
            ),
            ConfigError::RegisteredPathMissing { name, path } => cat4(
                "registered tool '",
                name,
                "' path not found: ",
                path,
            ),
            ConfigError::RegisteredPathNotFile { name, path } => cat4(
                "registered tool '",
                name,
                "' is not a file: ",
                path,
            ),
        }
    }
}

/// Validate a registered name: a single file name component (no path
/// separators, no `.` / `..`).
pub fn validate_name(name: &str, p: Platform) -> (r: Result<(), ConfigError>)
    ensures
        r is Ok <==> spec_is_single_name(name@, p),
        r matches Err(e) ==> e matches ConfigError::InvalidToolName(n) && n@ == name@,
{
    if is_single_name(name, p) {
        Ok(())
    } else {
        Err(ConfigError::InvalidToolName(name.to_owned()))
    }
}

/// The config file path: the CLI argument, else a non-empty value of
/// `RUN_CLI_CONFIG`, else the platform default.
pub open spec fn spec_config_path(cli: Option<Seq<char>>, env: Option<Seq<char>>, default: Seq<
    char,
>) -> Seq<char> {
    match cli {
        Some(c) => c,
        None => match env {
            Some(e) => if e.len() > 0 {
                e
            } else {
                default
            },
            None => default,
        },
    }
}

/// Resolve the config file path with priority: CLI argument >
/// `RUN_CLI_CONFIG` > default. An empty environment value counts as unset.
pub fn resolve_config_path(cli_config: Option<&str>, env_config: Option<&str>, default: &str) -> (r:
    String)
    ensures
        r@ == spec_config_path(
            match cli_config {
                Some(c) => Some(c@),
                None => None,
            },
            match env_config {
                Some(e) => Some(e@),
                None => None,
            },
            default@,
        ),
{
    if let Some(c) = cli_config {
        return c.to_owned();
    }
    if let Some(e) = env_config {
        if e.unicode_len() > 0 {
            return e.to_owned();
        }
    }
    default.to_owned()
}

/// The default config file path: `config.toml` in the directory of the
/// executable on Windows, `<home>/.run-cli/config.toml` on Unix, and
/// `config.toml` when that directory is unknown (or the home is empty).
pub open spec fn spec_default_config_path(p: Platform, exe_dir: Option<Seq<char>>, home: Option<
    Seq<char>,
>) -> Seq<char> {
    if p == Platform::Windows {
        match exe_dir {
            Some(d) => spec_join(d, "config.toml"@, p),
            None => "config.toml"@,
        }
    } else {
        match home {
            Some(h) => if h.len() > 0 {
                spec_join(spec_join(h, ".run-cli"@, p), "config.toml"@, p)
            } else {
                "config.toml"@
            },
            None => "config.toml"@,
        }
    }
}

/// The default config file path (see [`spec_default_config_path`]).
pub fn default_config_path(p: Platform, exe_dir: Option<&str>, home: Option<&str>) -> (r: String)
    ensures
        r@ == spec_default_config_path(
            p,
            match exe_dir {
                Some(d) => Some(d@),
                None => None,
            },
            match home {
                Some(h) => Some(h@),
                None => None,
            },
        ),
{
    match p {
        Platform::Windows => match exe_dir {
            Some(d) => join(d, DEFAULT_CONFIG_FILE, p),
            None => DEFAULT_CONFIG_FILE.to_owned(),
        },
        Platform::Unix => match home {
            Some(h) => {
                if h.unicode_len() > 0 {
                    let base = join(h, ".run-cli", p);
                    join(base.as_str(), DEFAULT_CONFIG_FILE, p)
                } else {
                    DEFAULT_CONFIG_FILE.to_owned()
                }
            },
            None => DEFAULT_CONFIG_FILE.to_owned(),
        },
    }
}

/// Every name is the same name as itself.
pub proof fn lemma_names_eq_reflexive(a: Seq<char>, p: Platform)
    ensures
        names_eq(a, a, p),
{
}

/// Registering a tool and then looking its name up finds that tool, when
/// the name matches only itself (it has an extension, or the platform does
/// not complete bare names).
pub proof fn lemma_lookup_after_upsert(tools: Seq<ConfigToolV>, t: ConfigToolV, p: Platform)
    requires
        spec_extension(t.name, p) is Some || p == Platform::Unix,
    ensures
        spec_lookup(spec_upsert(tools, t, p), t.name, p) == Some(t),
{
    let cands = spec_candidate_names(t.name, p);
    assert(cands =~= seq![t.name]);
    assert(cands[0] == t.name);
    assert(cands.drop_first() =~= Seq::<Seq<char>>::empty());
    assert(index_in(tools, cands.drop_first(), p) is None);
    let new = spec_upsert(tools, t, p);
    assert(index_in(new, cands.drop_first(), p) is None);
    assert(resolve_index(tools, t.name, p) == first_match(tools, t.name, p));
    assert(resolve_index(new, t.name, p) == first_match(new, t.name, p));
    lemma_first_match(tools, t.name, p);
    lemma_first_match(new, t.name, p);
    lemma_names_eq_reflexive(t.name, p);
    match first_match(tools, t.name, p) {
        Some(i) => {
            assert(new[i] == t);
            if let Some(k) = first_match(new, t.name, p) {
                if k < i {
                    assert(new[k] == tools[k]);
                }
            }
        },
        None => {
            assert(new[tools.len() as int] == t);
            if let Some(k) = first_match(new, t.name, p) {
                if k < tools.len() {
                    assert(new[k] == tools[k]);
                }
            }
        },
    }
}

/// `remove` takes out exactly the registration that `lookup` finds.
pub proof fn lemma_remove_resolves_like_lookup(tools: Seq<ConfigToolV>, name: Seq<char>, p: Platform)
    ensures
        spec_remove(tools, name, p).1 == spec_lookup(tools, name, p),
        spec_lookup(tools, name, p) is Some ==> spec_remove(tools, name, p).0.len() + 1
            == tools.len(),
        spec_lookup(tools, name, p) is None ==> spec_remove(tools, name, p).0 == tools,
{
    lemma_index_bound(tools, name, p);
}

/// Lookup resolves in candidate order: the registration found is the first
/// one named by the earliest candidate that is registered at all, and no
/// registration is found only when no candidate is registered.
pub proof fn lemma_lookup_candidate_order(tools: Seq<ConfigToolV>, name: Seq<char>, p: Platform)
    ensures
        spec_lookup(tools, name, p) matches Some(t) ==> exists|k: int, i: int|
            #![trigger spec_candidate_names(name, p)[k], tools[i]]
            0 <= k < spec_candidate_names(name, p).len() && 0 <= i < tools.len() && t == tools[i]
                && names_eq(tools[i].name, spec_candidate_names(name, p)[k], p) && (forall|j: int|
                0 <= j < i ==> !names_eq(
                    #[trigger] tools[j].name,
                    spec_candidate_names(name, p)[k],
                    p,
                )) && (forall|m: int, j: int|
                0 <= m < k && 0 <= j < tools.len() ==> !names_eq(
                    #[trigger] tools[j].name,
                    #[trigger] spec_candidate_names(name, p)[m],
                    p,
                )),
        spec_lookup(tools, name, p) is None ==> forall|k: int, j: int|
            0 <= k < spec_candidate_names(name, p).len() && 0 <= j < tools.len() ==> !names_eq(
                #[trigger] tools[j].name,
                #[trigger] spec_candidate_names(name, p)[k],
                p,
            ),
{
    let cands = spec_candidate_names(name, p);
    lemma_index_in(tools, cands, p);
    assert forall|m: int| 0 <= m < cands.len() implies (first_match(tools, cands[m], p) is None
        ==> forall|j: int| 0 <= j < tools.len() ==> !names_eq(#[trigger] tools[j].name, cands[m], p))
        && (first_match(tools, cands[m], p) matches Some(i) ==> {
        &&& 0 <= i < tools.len()
        &&& names_eq(tools[i].name, cands[m], p)
        &&& forall|j: int| 0 <= j < i ==> !names_eq(#[trigger] tools[j].name, cands[m], p)
    }) by {
        lemma_first_match(tools, cands[m], p);
    }
    if let Some(i) = resolve_index(tools, name, p) {
        let k = choose|k: int|
            0 <= k < cands.len() && first_match(tools, #[trigger] cands[k], p) == Some(i) && forall|
                m: int,
            |
                0 <= m < k ==> first_match(tools, #[trigger] cands[m], p) is None;
        assert(first_match(tools, cands[k], p) == Some(i));
    }
}

/// Registering a tool under a name that resolves to nothing yet, and then
/// removing that name, hands back the tool and leaves the registry as it
/// was.
pub proof fn lemma_remove_undoes_add(tools: Seq<ConfigToolV>, t: ConfigToolV, p: Platform)
    requires
        spec_lookup(tools, t.name, p) is None,
    ensures
        spec_remove(spec_upsert(tools, t, p), t.name, p) == (tools, Some(t)),
{
    let new = spec_upsert(tools, t, p);
    let cands = spec_candidate_names(t.name, p);
    let last = cands.len() - 1;
    assert(new =~= tools.push(t));
    lemma_lookup_candidate_order(tools, t.name, p);
    lemma_names_eq_reflexive(t.name, p);
    // The last candidate is the name itself; the others are longer.
    assert(cands.len() >= 1);
    assert(cands[last] == t.name);
    assert forall|k: int| 0 <= k < last implies cands[k].len() > t.name.len() by {
        assert(spec_extension(t.name, p) is None);
        assert(cands[k] == t.name + seq!['.'] + tool_exts(p)[k]);
    }
    assert forall|k: int| 0 <= k < cands.len() implies first_match(new, #[trigger] cands[k], p)
        == (if k == last {
        Some(tools.len() as int)
    } else {
        None::<int>
    }) by {
        lemma_first_match(new, cands[k], p);
        assert forall|j: int| 0 <= j < tools.len() implies !names_eq(#[trigger] new[j].name, cands[k], p) by {
            assert(new[j] == tools[j]);
        }
        assert(new[tools.len() as int] == t);
        if k < last {
            assert(!names_eq(t.name, cands[k], p));
        }
    }
    lemma_index_in(new, cands, p);
    assert(resolve_index(new, t.name, p) == Some(tools.len() as int));
    assert(new.remove(tools.len() as int) =~= tools);
}

/// Registering a tool never loses another registration: the registry
/// after an upsert holds the new tool, and every earlier registration
/// except at most the one the new name resolved to, which it replaces.
pub proof fn lemma_upsert_keeps_others(tools: Seq<ConfigToolV>, t: ConfigToolV, p: Platform)
    ensures
        spec_upsert(tools, t, p).contains(t),
        spec_lookup(tools, t.name, p) is None ==> spec_upsert(tools, t, p) == tools.push(t),
        spec_lookup(tools, t.name, p) is Some ==> spec_upsert(tools, t, p).len() == tools.len(),
        forall|i: int|
            0 <= i < tools.len() && resolve_index(tools, t.name, p) != Some(i) ==> spec_upsert(tools, t, p)[i]
                == tools[i],
{
    lemma_index_bound(tools, t.name, p);
    let new = spec_upsert(tools, t, p);
    match resolve_index(tools, t.name, p) {
        Some(i) => {
            assert(new[i] == t);
        },
        None => {
            assert(new[tools.len() as int] == t);
        },
    }
}

/// On Unix the default config file is `config.toml` in `.run-cli` under
/// the home directory, whatever the executable's directory is (and
/// `config.toml` without a home); on Windows it is `config.toml` in the
/// executable's directory.
pub proof fn lemma_default_config_path(
    exe_dir: Option<Seq<char>>,
    other_exe_dir: Option<Seq<char>>,
    home: Option<Seq<char>>,
)
    ensures
        spec_default_config_path(Platform::Unix, exe_dir, home) == spec_default_config_path(
            Platform::Unix,
            other_exe_dir,
            home,
        ),
        home matches Some(h) ==> (h.len() > 0 && h.last() != '/' ==> spec_default_config_path(
            Platform::Unix,
            exe_dir,
            home,
        ) == h + "/.run-cli/config.toml"@),
        home matches Some(h) ==> (h.len() > 0 && h.last() == '/' ==> spec_default_config_path(
            Platform::Unix,
            exe_dir,
            home,
        ) == h + ".run-cli/config.toml"@),
        (home is None || home == Some(Seq::<char>::empty())) ==> spec_default_config_path(
            Platform::Unix,
            exe_dir,
            home,
        ) == "config.toml"@,
        exe_dir matches Some(d) ==> (d.len() > 0 && d.last() != '/' && d.last() != '\\' && !(d.len()
            == 2 && d[1] == ':') ==> spec_default_config_path(Platform::Windows, exe_dir, home) == d
            + "\\config.toml"@),
        exe_dir is None ==> spec_default_config_path(Platform::Windows, exe_dir, home) == "config.toml"@,
{
    reveal_strlit(".run-cli");
    reveal_strlit("config.toml");
    reveal_strlit("/.run-cli/config.toml");
    reveal_strlit(".run-cli/config.toml");
    reveal_strlit("\\config.toml");
    let u = Platform::Unix;
    if let Some(h) = home {
        if h.len() > 0 {
            let base = spec_join(h, ".run-cli"@, u);
            assert(!crate::paths::has_root(".run-cli"@, u));
            if h.last() != '/' {
                assert(base == h + seq!['/'] + ".run-cli"@);
                assert(base.last() == 'i');
                assert(spec_join(base, "config.toml"@, u) =~= h + "/.run-cli/config.toml"@);
            } else {
                assert(base == h + ".run-cli"@);
                assert(base.last() == 'i');
                assert(spec_join(base, "config.toml"@, u) =~= h + ".run-cli/config.toml"@);
            }
        }
    }
    if let Some(d) = exe_dir {
        let w = Platform::Windows;
        assert(!crate::paths::has_root("config.toml"@, w));
        assert(!crate::paths::has_drive_prefix("config.toml"@, w));
        assert(!crate::paths::has_unc_prefix("config.toml"@, w));
        if d.len() > 0 && d.last() != '/' && d.last() != '\\' && !(d.len() == 2 && d[1] == ':') {
            assert(spec_join(d, "config.toml"@, w) =~= d + "\\config.toml"@);
        }
    }
}

/// Names are compared symmetrically: `a` is the same name as `b` exactly
/// when `b` is the same name as `a`; on Windows that is equality after ASCII
/// lower-casing.
pub proof fn lemma_names_eq_symmetric(a: Seq<char>, b: Seq<char>, p: Platform)
    ensures
        names_eq(a, b, p) == names_eq(b, a, p),
        p == Platform::Windows ==> (names_eq(a, b, p) <==> (a.len() == b.len() && forall|i: int|
            0 <= i < a.len() ==> crate::paths::ascii_lower_code(#[trigger] a[i])
                == crate::paths::ascii_lower_code(b[i]))),
        p == Platform::Unix ==> (names_eq(a, b, p) <==> a == b),
{
    crate::paths::lemma_eq_ignore_ascii_case_is_lowercase_eq(a, b);
}

/// A registration whose name differs from a query with an extension only
/// in ASCII case (either side upper case) is found on Windows, when no
/// earlier registration has that name.
pub proof fn lemma_lookup_ignores_case_on_windows(tools: Seq<ConfigToolV>, i: int, name: Seq<char>)
    requires
        0 <= i < tools.len(),
        spec_extension(name, Platform::Windows) is Some,
        name.len() == tools[i].name.len(),
        forall|k: int| 0 <= k < name.len() ==> crate::paths::ascii_lower_code(#[trigger] name[k])
            == crate::paths::ascii_lower_code(tools[i].name[k]),
        forall|j: int| 0 <= j < i ==> !names_eq(#[trigger] tools[j].name, name, Platform::Windows),
    ensures
        spec_lookup(tools, name, Platform::Windows) == Some(tools[i]),
{
    let w = Platform::Windows;
    lemma_names_eq_symmetric(tools[i].name, name, w);
    assert forall|k: int| 0 <= k < tools[i].name.len() implies crate::paths::ascii_lower_code(
        #[trigger] tools[i].name[k],
    ) == crate::paths::ascii_lower_code(name[k]) by {}
    assert(names_eq(tools[i].name, name, w));
    let cands = spec_candidate_names(name, w);
    assert(cands =~= seq![name]);
    assert(cands[0] == name);
    assert(cands.drop_first() =~= Seq::<Seq<char>>::empty());
    assert(index_in(tools, cands.drop_first(), w) is None);
    assert(resolve_index(tools, name, w) == first_match(tools, name, w));
    lemma_first_match(tools, name, w);
    if let Some(k) = first_match(tools, name, w) {
        if k > i {
        }
    }
}

/// On Windows a query finds a registration whenever one of its candidate
/// names (the query completed with an extension, or the query itself)
/// equals a registered name after ASCII lower-casing, whichever side is
/// upper case.
pub proof fn lemma_lookup_finds_case_variant(tools: Seq<ConfigToolV>, name: Seq<char>, i: int, k: int)
    requires
        0 <= i < tools.len(),
        0 <= k < spec_candidate_names(name, Platform::Windows).len(),
        spec_candidate_names(name, Platform::Windows)[k].len() == tools[i].name.len(),
        forall|c: int| 0 <= c < tools[i].name.len() ==> crate::paths::ascii_lower_code(#[trigger] tools[i].name[c])
            == crate::paths::ascii_lower_code(spec_candidate_names(name, Platform::Windows)[k][c]),
    ensures
        spec_lookup(tools, name, Platform::Windows) is Some,
{
    let w = Platform::Windows;
    let cand = spec_candidate_names(name, w)[k];
    lemma_names_eq_symmetric(tools[i].name, cand, w);
    assert(names_eq(tools[i].name, cand, w));
    lemma_lookup_candidate_order(tools, name, w);
}

} // verus!
