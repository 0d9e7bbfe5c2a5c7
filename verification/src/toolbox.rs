//! The toolbox directory: location, listing, and tool resolution.
//!
//! Tool names are resolved against the toolbox directory with platform
//! extension completion (Windows: `.exe`, `.bat`, `.cmd`, `.ps1`, in that
//! order, then the bare name), including subdirectories. Absolute paths are
//! accepted as they are.
//!
//! Resolved paths must stay inside the toolbox directory: ordinary paths
//! are judged by where they resolve to (their canonical form), symlink
//! entries by the link itself, lexically. A path outside is "not found".
//!
//! The filesystem is read outside this module; the functions here take what
//! was read (whether a candidate is a file, its canonical form, ...) as
//! plain values and decide.

use vstd::prelude::*;

use crate::config::{cat, cat3, cat4};
use crate::order::{
    lemma_map_multiset, lemma_sorted_permutation_unique, seqs_sorted, sort_by_key, sorted_by_key, Keyed,
};
use crate::paths::{
    extension, file_name, has_parent_comp, is_absolute, join, spec_extension, spec_file_name,
    spec_has_parent_comp, spec_is_absolute, spec_join, spec_starts_with, starts_with,
    is_single_name, spec_is_single_name, spec_trim_trailing, trim_trailing, Platform,
};

verus! {

broadcast use vstd::seq_lib::group_to_multiset_ensures;

/// Default toolbox directory when neither the CLI flag nor the environment
/// variable is set.
pub const DEFAULT_BIN_DIR: &'static str = "bin";

/// Environment variable overriding the toolbox directory.
pub const ENV_BIN_DIR: &'static str = "RUN_CLI_BIN";

/// The extension candidates tried for a bare name, in order.
pub open spec fn tool_exts(p: Platform) -> Seq<Seq<char>> {
    if p == Platform::Windows {
        seq!["exe"@, "bat"@, "cmd"@, "ps1"@]
    } else {
        Seq::<Seq<char>>::empty()
    }
}

/// The extension candidates tried for a bare name on `p`, in order.
pub fn tool_extensions(p: Platform) -> (r: Vec<&'static str>)
    ensures
        r@.map_values(|e: &str| e@) == tool_exts(p),
{
    let mut r: Vec<&'static str> = Vec::new();
    if p == Platform::Windows {
        r.push("exe");
        r.push("bat");
        r.push("cmd");
        r.push("ps1");
    }
    assert(r@.map_values(|e: &str| e@) =~= tool_exts(p));
    r
}

/// The kind of an I/O failure, as far as decisions depend on it.
#[derive(Clone, Copy, Debug, PartialEq, Eq, Structural)]
pub enum IoKind {
    /// The path does not exist.
    NotFound,
    /// A path component is not a directory.
    NotADirectory,
    /// Anything else.
    Other,
}

/// An I/O failure: its kind and its text.
#[derive(Clone, Debug, PartialEq, Eq)]
pub struct IoFailure {
    /// What kind of failure it is.
    pub kind: IoKind,
    /// The failure's text.
    pub text: String,
}

/// An I/O failure, as a value.
pub struct IoFailureV {
    pub kind: IoKind,
    pub text: Seq<char>,
}

impl View for IoFailure {
    type V = IoFailureV;

    open spec fn view(&self) -> IoFailureV {
        IoFailureV { kind: self.kind, text: self.text@ }
    }
}

/// Whether a toolbox entry is a file or a directory.
#[derive(Clone, Copy, Debug, PartialEq, Eq, Structural)]
pub enum ToolKind {
    /// Regular file.
    File,
    /// Directory.
    Directory,
}

/// How `add` materialized a tool inside the toolbox.
#[derive(Clone, Copy, Debug, PartialEq, Eq, Structural)]
pub enum AddOutcome {
    /// A symlink was created.
    Linked,
    /// A copy was made (symlinks unavailable).
    Copied,
}

/// An entry of the toolbox directory.
#[derive(Clone, Debug, PartialEq, Eq)]
pub struct Tool {
    /// File name (or directory name) inside the toolbox.
    pub name: String,
    /// Full path of the entry.
    pub path: String,
    /// Whether the entry is a file or a directory.
    pub kind: ToolKind,
    /// Size in bytes for files; `None` for directories.
    pub size: Option<u64>,
}

/// A toolbox entry, as a value.
pub struct ToolV {
    pub name: Seq<char>,
    pub path: Seq<char>,
    pub kind: ToolKind,
    pub size: Option<u64>,
}

impl View for Tool {
    type V = ToolV;

    open spec fn view(&self) -> ToolV {
        ToolV { name: self.name@, path: self.path@, kind: self.kind, size: self.size }
    }
}

impl Keyed for Tool {
    open spec fn key_of(&self) -> Seq<char> {
        self.name@
    }

    fn key(&self) -> (r: &str) {
        self.name.as_str()
    }
}

/// Errors produced by toolbox operations. Paths and underlying error texts
/// are carried as strings.
#[derive(Clone, Debug, PartialEq, Eq)]
pub enum ToolboxError {
    /// The toolbox directory does not exist.
    MissingDirectory(String),
    /// The toolbox path exists but is not a directory.
    NotADirectory(String),
    /// Reading the toolbox directory failed.
    ReadError(String, String),
    /// Canonicalizing a path failed.
    CanonicalizeError(String, String),
    /// Making a path absolute failed.
    AbsolutePathError(String, String),
    /// The requested tool does not exist in the toolbox (directory, name).
    ToolNotFound(String, String),
    /// An empty tool name was given.
    EmptyToolName,
    /// An `add` name contains path separators or is otherwise invalid.
    InvalidToolName(String),
    /// The source of an `add` does not exist.
    AddSourceMissing(String),
    /// The destination of an `add` already exists.
    AlreadyExists(String),
    /// Creating the toolbox directory failed.
    CreateBinDirError(String, String),
    /// Copying a source into the toolbox failed (source, destination, text).
    CopyError(String, String, String),
    /// Removing an entry failed.
    RemoveError(String, String),
    /// Removing a directory without `recursive`.
    RemoveDirectory(String),
}

/// A toolbox error, as a value.
pub enum ToolboxErrorV {
    MissingDirectory(Seq<char>),
    NotADirectory(Seq<char>),
    ReadError(Seq<char>, Seq<char>),
    CanonicalizeError(Seq<char>, Seq<char>),
    AbsolutePathError(Seq<char>, Seq<char>),
    ToolNotFound(Seq<char>, Seq<char>),
    EmptyToolName,
    InvalidToolName(Seq<char>),
    AddSourceMissing(Seq<char>),
    AlreadyExists(Seq<char>),
    CreateBinDirError(Seq<char>, Seq<char>),
    CopyError(Seq<char>, Seq<char>, Seq<char>),
    RemoveError(Seq<char>, Seq<char>),
    RemoveDirectory(Seq<char>),
}

impl View for ToolboxError {
    type V = ToolboxErrorV;

    open spec fn view(&self) -> ToolboxErrorV {
        match self {
            ToolboxError::MissingDirectory(a) => ToolboxErrorV::MissingDirectory(a@),
            ToolboxError::NotADirectory(a) => ToolboxErrorV::NotADirectory(a@),
            ToolboxError::ReadError(a, b) => ToolboxErrorV::ReadError(a@, b@),
            ToolboxError::CanonicalizeError(a, b) => ToolboxErrorV::CanonicalizeError(a@, b@),
            ToolboxError::AbsolutePathError(a, b) => ToolboxErrorV::AbsolutePathError(a@, b@),
            ToolboxError::ToolNotFound(a, b) => ToolboxErrorV::ToolNotFound(a@, b@),
            ToolboxError::EmptyToolName => ToolboxErrorV::EmptyToolName,
            ToolboxError::InvalidToolName(a) => ToolboxErrorV::InvalidToolName(a@),
            ToolboxError::AddSourceMissing(a) => ToolboxErrorV::AddSourceMissing(a@),
            ToolboxError::AlreadyExists(a) => ToolboxErrorV::AlreadyExists(a@),
            ToolboxError::CreateBinDirError(a, b) => ToolboxErrorV::CreateBinDirError(a@, b@),
            ToolboxError::CopyError(a, b, c) => ToolboxErrorV::CopyError(a@, b@, c@),
            ToolboxError::RemoveError(a, b) => ToolboxErrorV::RemoveError(a@, b@),
            ToolboxError::RemoveDirectory(a) => ToolboxErrorV::RemoveDirectory(a@),
        }
    }
}

/// The text of a toolbox error.
pub open spec fn toolbox_error_text(e: ToolboxErrorV) -> Seq<char> {
    match e {
        ToolboxErrorV::MissingDirectory(d) => "bin directory not found: "@ + d,
        ToolboxErrorV::NotADirectory(d) => "bin path is not a directory: "@ + d,
        ToolboxErrorV::ReadError(d, x) => "failed to read bin directory "@ + d + ": "@ + x,
        ToolboxErrorV::CanonicalizeError(d, x) => "failed to canonicalize "@ + d + ": "@ + x,
        ToolboxErrorV::AbsolutePathError(d, x) => "failed to resolve absolute path for "@ + d
            + ": "@ + x,
        ToolboxErrorV::ToolNotFound(d, n) => "tool not found in "@ + d + ": "@ + n,
        ToolboxErrorV::EmptyToolName => "tool name must not be empty"@,
        ToolboxErrorV::InvalidToolName(n) => "invalid tool name '"@ + n
            + "': must be a single file name"@,
        ToolboxErrorV::AddSourceMissing(s) => "source not found: "@ + s,
        ToolboxErrorV::AlreadyExists(d) => "'"@ + d + "' already exists in the toolbox"@,
        ToolboxErrorV::CreateBinDirError(d, x) => "failed to create bin directory "@ + d + ": "@
            + x,
        ToolboxErrorV::CopyError(s, d, x) => "failed to copy "@ + s + " to "@ + d + ": "@ + x,
        ToolboxErrorV::RemoveError(d, x) => "failed to remove "@ + d + ": "@ + x,
        ToolboxErrorV::RemoveDirectory(d) => "'"@ + d + "' is a directory; use --recursive to remove it"@,
    }
}

impl ToolboxError {
    /// The message printed for this error.
    pub fn message(&self) -> (r: String)
        ensures
            r@ == toolbox_error_text(self@),
    {
        match self {
            ToolboxError::MissingDirectory(d) => cat("bin directory not found: ", d),
            ToolboxError::NotADirectory(d) => cat("bin path is not a directory: ", d),
            ToolboxError::ReadError(d, x) => cat4("failed to read bin directory ", d, ": ", x),
            ToolboxError::CanonicalizeError(d, x) => cat4("failed to canonicalize ", d, ": ", x),
            ToolboxError::AbsolutePathError(d, x) => cat4(
                "failed to resolve absolute path for ",
                d,
                ": ",
                x,
            ),
            ToolboxError::ToolNotFound(d, n) => cat4("tool not found in ", d, ": ", n),
            ToolboxError::EmptyToolName => "tool name must not be empty".to_owned(),
            ToolboxError::InvalidToolName(n) => cat3(
                "invalid tool name '",
                n,
                "': must be a single file name",
            ),
            ToolboxError::AddSourceMissing(s) => cat("source not found: ", s),
            ToolboxError::AlreadyExists(d) => cat3("'", d, "' already exists in the toolbox"),
            ToolboxError::CreateBinDirError(d, x) => cat4(
                "failed to create bin directory ",
                d,
                ": ",
                x,
            ),
            ToolboxError::CopyError(s, d, x) => {
                let mut m = cat4("failed to copy ", s, " to ", d);
                m.append(": ");
                m.append(x);
                m
            },
            ToolboxError::RemoveError(d, x) => cat4("failed to remove ", d, ": ", x),
            ToolboxError::RemoveDirectory(d) => cat3(
                "'",
                d,
                "' is a directory; use --recursive to remove it",
            ),
        }
    }
}

/// The toolbox directory: the CLI argument, else a non-empty value of
/// `RUN_CLI_BIN`, else `bin`.
pub open spec fn spec_bin_dir(cli: Option<Seq<char>>, env: Option<Seq<char>>) -> Seq<char> {
    match cli {
        Some(c) => c,
        None => match env {
            Some(e) => if e.len() > 0 {
                e
            } else {
                "bin"@
            },
            None => "bin"@,
        },
    }
}

/// The view of an optional string slice.
pub open spec fn opt_str(o: Option<&str>) -> Option<Seq<char>> {
    match o {
        Some(s) => Some(s@),
        None => None,
    }
}

/// Resolve the toolbox directory with priority: CLI argument >
/// `RUN_CLI_BIN` > `bin`. An empty environment value counts as unset.
pub fn resolve_bin_dir(cli_bin_dir: Option<&str>, env_bin_dir: Option<&str>) -> (r: String)
    ensures
        r@ == spec_bin_dir(opt_str(cli_bin_dir), opt_str(env_bin_dir)),
{
    if let Some(d) = cli_bin_dir {
        return d.to_owned();
    }
    if let Some(e) = env_bin_dir {
        if e.unicode_len() > 0 {
            return e.to_owned();
        }
    }
    DEFAULT_BIN_DIR.to_owned()
}

/// A toolbox directory.
#[derive(Clone, Debug, PartialEq, Eq)]
pub struct Toolbox {
    dir: String,
}

/// What was read about one candidate path: whether it is a file (following
/// symlinks), whether it is itself a symlink, and its canonical form.
#[derive(Debug, PartialEq, Eq)]
pub struct PathFacts {
    /// Whether the path is a regular file, following symlinks.
    pub is_file: bool,
    /// Whether the path itself is a symlink.
    pub is_symlink: bool,
    /// The canonical form of the path, or why it could not be had.
    pub canonical: Result<String, IoFailure>,
}

/// What was read about a candidate, as a value.
pub struct PathFactsV {
    pub is_file: bool,
    pub is_symlink: bool,
    pub canonical: Result<Seq<char>, IoFailureV>,
}

/// The view of a result carrying a string or an I/O failure.
pub open spec fn io_str(r: Result<String, IoFailure>) -> Result<Seq<char>, IoFailureV> {
    match r {
        Ok(s) => Ok(s@),
        Err(e) => Err(e@),
    }
}

impl View for PathFacts {
    type V = PathFactsV;

    open spec fn view(&self) -> PathFactsV {
        PathFactsV { is_file: self.is_file, is_symlink: self.is_symlink, canonical: io_str(self.canonical) }
    }
}

/// Whether bare name `name` gets extension candidates: it has a file
/// name (a trailing separator does not matter).
pub open spec fn ext_completable(name: Seq<char>, p: Platform) -> bool {
    spec_file_name(name, p) is Some
}

/// The paths a tool name is looked for at, in order: an absolute name as it
/// is; a name with an extension inside the toolbox; a bare name inside the
/// toolbox with each extension candidate appended to the name up to its
/// file name (trailing separators dropped), then bare.
pub open spec fn spec_locate_candidates(dir: Seq<char>, name: Seq<char>, p: Platform) -> Seq<
    Seq<char>,
> {
    if spec_is_absolute(name, p) {
        seq![name]
    } else if spec_extension(name, p) is Some {
        seq![spec_join(dir, name, p)]
    } else if ext_completable(name, p) {
        tool_exts(p).map_values(
            |e: Seq<char>| spec_join(dir, spec_trim_trailing(name, p), p) + seq!['.'] + e,
        ).push(spec_join(dir, name, p))
    } else {
        seq![spec_join(dir, name, p)]
    }
}

/// The first candidate that is a file.
pub open spec fn first_file(cands: Seq<Seq<char>>, facts: Seq<PathFactsV>) -> Option<int>
    decreases cands.len(),
{
    if cands.len() == 0 || facts.len() == 0 {
        None
    } else if facts[0].is_file {
        Some(0)
    } else {
        match first_file(cands.drop_first(), facts.drop_first()) {
            Some(i) => Some(i + 1),
            None => None,
        }
    }
}

/// Whether `cand` is lexically inside `dir`: it starts with `dir` and has no
/// `..` component.
pub open spec fn lexically_within(dir: Seq<char>, cand: Seq<char>, p: Platform) -> bool {
    spec_starts_with(cand, dir, p) && !spec_has_parent_comp(cand, p)
}

/// The containment decision for a candidate that exists.
pub open spec fn spec_within(
    dir: Seq<char>,
    cand: Seq<char>,
    facts: PathFactsV,
    canonical_dir: Result<Seq<char>, IoFailureV>,
    p: Platform,
) -> Result<Seq<char>, ToolboxErrorV> {
    if facts.is_symlink {
        if lexically_within(dir, cand, p) {
            Ok(cand)
        } else {
            Err(ToolboxErrorV::ToolNotFound(dir, cand))
        }
    } else {
        match canonical_dir {
            Err(e) => if e.kind == IoKind::NotFound {
                Err(ToolboxErrorV::MissingDirectory(dir))
            } else {
                Err(ToolboxErrorV::CanonicalizeError(dir, e.text))
            },
            Ok(base) => match facts.canonical {
                Err(e) => Err(ToolboxErrorV::CanonicalizeError(cand, e.text)),
                Ok(c) => if spec_starts_with(c, base, p) {
                    Ok(cand)
                } else {
                    Err(ToolboxErrorV::ToolNotFound(dir, cand))
                },
            },
        }
    }
}

/// Where a tool name resolves to, given what was read about each candidate
/// and the canonical toolbox directory.
pub open spec fn spec_locate(
    dir: Seq<char>,
    name: Seq<char>,
    facts: Seq<PathFactsV>,
    canonical_dir: Result<Seq<char>, IoFailureV>,
    p: Platform,
) -> Result<Seq<char>, ToolboxErrorV> {
    if name.len() == 0 {
        Err(ToolboxErrorV::EmptyToolName)
    } else {
        let cands = spec_locate_candidates(dir, name, p);
        match first_file(cands, facts) {
            None => Err(ToolboxErrorV::ToolNotFound(dir, name)),
            Some(i) => spec_within(dir, cands[i], facts[i], canonical_dir, p),
        }
    }
}

/// The views of a list of path facts.
pub open spec fn facts_view(v: Seq<PathFacts>) -> Seq<PathFactsV> {
    v.map_values(|f: PathFacts| f@)
}

/// The view of a toolbox result.
pub open spec fn res_view(r: Result<String, ToolboxError>) -> Result<Seq<char>, ToolboxErrorV> {
    match r {
        Ok(s) => Ok(s@),
        Err(e) => Err(e@),
    }
}

/// An entry found when reading the toolbox directory.
#[derive(Debug, PartialEq, Eq)]
pub struct DirEntry {
    /// The entry's file name.
    pub name: String,
    /// The entry's absolute path.
    pub path: String,
    /// What the entry is, following symlinks, or why that could not be read.
    pub meta: Result<EntryMeta, IoFailure>,
}

/// What a directory entry is, following symlinks.
#[derive(Clone, Copy, Debug, PartialEq, Eq, Structural)]
pub enum EntryMeta {
    /// A regular file of this many bytes.
    File(u64),
    /// A directory.
    Directory,
    /// Anything else (a socket, a device, ...).
    Special,
}

/// A directory entry, as a value.
pub struct DirEntryV {
    pub name: Seq<char>,
    pub path: Seq<char>,
    pub meta: Result<EntryMeta, IoFailureV>,
}

impl View for DirEntry {
    type V = DirEntryV;

    open spec fn view(&self) -> DirEntryV {
        DirEntryV {
            name: self.name@,
            path: self.path@,
            meta: match self.meta {
                Ok(m) => Ok(m),
                Err(e) => Err(e@),
            },
        }
    }
}

/// The listing of the toolbox directory as read: the directory could not be
/// read, or its entries, each read or failed.
pub type Listing = Result<Vec<Result<DirEntry, IoFailure>>, IoFailure>;

/// The tool a read entry stands for: files and directories are tools;
/// dangling symlinks (not found) and special files are skipped.
pub open spec fn entry_tool(e: DirEntryV) -> Option<ToolV> {
    match e.meta {
        Ok(EntryMeta::File(n)) => Some(ToolV { name: e.name, path: e.path, kind: ToolKind::File, size: Some(n) }),
        Ok(EntryMeta::Directory) => Some(ToolV { name: e.name, path: e.path, kind: ToolKind::Directory, size: None }),
        _ => None,
    }
}

/// Whether reading an entry failed in a way that fails the listing: the
/// entry itself could not be read, or its metadata failed other than by
/// not being found.
pub open spec fn entry_fails(e: Result<DirEntryV, IoFailureV>) -> bool {
    match e {
        Err(_) => true,
        Ok(d) => d.meta matches Err(f) && f.kind != IoKind::NotFound,
    }
}

/// The view of a read entry.
pub open spec fn read_entry_view(e: Result<DirEntry, IoFailure>) -> Result<DirEntryV, IoFailureV> {
    match e {
        Ok(d) => Ok(d@),
        Err(f) => Err(f@),
    }
}

/// The tools of the entries, in order, skipping those that are no tool.
pub open spec fn entries_tools(es: Seq<DirEntryV>) -> Seq<ToolV>
    decreases es.len(),
{
    if es.len() == 0 {
        Seq::empty()
    } else {
        let r = entries_tools(es.drop_last());
        match entry_tool(es.last()) {
            Some(t) => r.push(t),
            None => r,
        }
    }
}

/// A listed file has a size and a listed directory has none.
proof fn lemma_entries_tools_shape(es: Seq<DirEntryV>)
    ensures
        forall|i: int|
            0 <= i < entries_tools(es).len() ==> ((#[trigger] entries_tools(es)[i]).size is Some) == (
            entries_tools(es)[i].kind == ToolKind::File),
    decreases es.len(),
{
    if es.len() > 0 {
        lemma_entries_tools_shape(es.drop_last());
    }
}

/// The first failing entry, if any.
pub open spec fn first_failure(es: Seq<Result<DirEntryV, IoFailureV>>) -> Option<int>
    decreases es.len(),
{
    if es.len() == 0 {
        None
    } else {
        match first_failure(es.drop_last()) {
            Some(i) => Some(i),
            None => if entry_fails(es.last()) {
                Some(es.len() - 1)
            } else {
                None
            },
        }
    }
}

/// The text of a failing entry.
pub open spec fn failure_text(e: Result<DirEntryV, IoFailureV>) -> Seq<char> {
    match e {
        Err(f) => f.text,
        Ok(d) => match d.meta {
            Err(f) => f.text,
            Ok(_) => Seq::empty(),
        },
    }
}

/// The entries of a listing in which no entry failed.
pub open spec fn ok_entries(es: Seq<Result<DirEntryV, IoFailureV>>) -> Seq<DirEntryV> {
    es.map_values(|e: Result<DirEntryV, IoFailureV>| e->Ok_0)
}

/// The names of a list of tools, in order.
pub open spec fn names_of(ts: Seq<ToolV>) -> Seq<Seq<char>> {
    ts.map_values(|t: ToolV| t.name)
}

/// The views of a list of tools.
pub open spec fn tools_view(v: Seq<Tool>) -> Seq<ToolV> {
    v.map_values(|t: Tool| t@)
}

impl Toolbox {
    /// Build a toolbox around the directory chosen by [`resolve_bin_dir`].
    pub fn resolve(cli_bin_dir: Option<&str>, env_bin_dir: Option<&str>) -> (r: Toolbox)
        ensures
            r.dir_view() == spec_bin_dir(opt_str(cli_bin_dir), opt_str(env_bin_dir)),
    {
        Toolbox { dir: resolve_bin_dir(cli_bin_dir, env_bin_dir) }
    }

    /// The toolbox directory, as a value.
    pub closed spec fn dir_view(&self) -> Seq<char> {
        self.dir@
    }

    /// The toolbox directory.
    pub fn dir(&self) -> (r: &str)
        ensures
            r@ == self.dir_view(),
    {
        self.dir.as_str()
    }

    /// The paths `name` is looked for at, in order (see
    /// [`spec_locate_candidates`]).
    pub fn locate_candidates(&self, name: &str, p: Platform) -> (r: Vec<String>)
        ensures
            r@.map_values(|s: String| s@) == spec_locate_candidates(self.dir_view(), name@, p),
    {
        let mut r: Vec<String> = Vec::new();
        if is_absolute(name, p) {
            r.push(name.to_owned());
            assert(r@.map_values(|s: String| s@) =~= seq![name@]);
            return r;
        }
        let joined = join(self.dir.as_str(), name, p);
        if extension(name, p).is_some() {
            r.push(joined);
            assert(r@.map_values(|s: String| s@) =~= seq![joined@]);
            return r;
        }
        if file_name(name, p).is_some() {
            let stem = join(self.dir.as_str(), trim_trailing(name, p).as_str(), p);
            let exts = tool_extensions(p);
            let ghost ev = exts@.map_values(|e: &str| e@);
            let mut i: usize = 0;
            while i < exts.len()
                invariant
                    ev == exts@.map_values(|e: &str| e@),
                    ev == tool_exts(p),
                    stem@ == spec_join(self.dir_view(), spec_trim_trailing(name@, p), p),
                    i <= exts.len(),
                    r@.map_values(|s: String| s@) == ev.take(i as int).map_values(
                        |e: Seq<char>| stem@ + seq!['.'] + e,
                    ),
                decreases exts.len() - i,
            {
                let mut c = stem.clone();
                c.append(".");
                c.append(exts[i]);
                proof {
                    reveal_strlit(".");
                    assert(ev[i as int] == exts@[i as int]@);
                    assert(c@ =~= stem@ + seq!['.'] + ev[i as int]);
                }
                let ghost before = r@;
                r.push(c);
                assert(r@.map_values(|s: String| s@) =~= before.map_values(|s: String| s@).push(c@));
                assert(ev.take(i + 1).map_values(|e: Seq<char>| stem@ + seq!['.'] + e) =~= ev.take(
                    i as int,
                ).map_values(|e: Seq<char>| stem@ + seq!['.'] + e).push(
                    stem@ + seq!['.'] + ev[i as int],
                ));
                i = i + 1;
            }
            assert(ev.take(exts.len() as int) =~= ev);
        }
        let ghost before = r@;
        r.push(joined);
        assert(r@.map_values(|s: String| s@) =~= before.map_values(|s: String| s@).push(joined@));
        assert(r@.map_values(|s: String| s@) =~= spec_locate_candidates(self.dir_view(), name@, p));
        r
    }

    /// Whether `candidate` is lexically inside the toolbox directory: it
    /// starts with the directory and has no `..` component.
    pub fn is_lexically_within(&self, candidate: &str, p: Platform) -> (r: bool)
        ensures
            r == lexically_within(self.dir_view(), candidate@, p),
    {
        starts_with(candidate, self.dir.as_str(), p) && !has_parent_comp(candidate, p)
    }

    /// Reject a candidate that resolves outside the toolbox directory (see
    /// [`spec_within`]): symlinks are judged lexically, by the link itself;
    /// other paths by their canonical form, against the canonical toolbox
    /// directory. Outside is "not found".
    pub fn ensure_within(
        &self,
        candidate: &str,
        facts: &PathFacts,
        canonical_dir: &Result<String, IoFailure>,
        p: Platform,
    ) -> (r: Result<String, ToolboxError>)
        ensures
            res_view(r) == spec_within(self.dir_view(), candidate@, facts@, io_str(*canonical_dir), p),
    {
        if facts.is_symlink {
            if self.is_lexically_within(candidate, p) {
                return Ok(candidate.to_owned());
            }
            return Err(ToolboxError::ToolNotFound(self.dir.clone(), candidate.to_owned()));
        }
        match canonical_dir {
            Err(e) => {
                if e.kind == IoKind::NotFound {
                    Err(ToolboxError::MissingDirectory(self.dir.clone()))
                } else {
                    Err(ToolboxError::CanonicalizeError(self.dir.clone(), e.text.clone()))
                }
            },
            Ok(base) => match &facts.canonical {
                Err(e) => Err(ToolboxError::CanonicalizeError(candidate.to_owned(), e.text.clone())),
                Ok(c) => {
                    if starts_with(c.as_str(), base.as_str(), p) {
                        Ok(candidate.to_owned())
                    } else {
                        Err(ToolboxError::ToolNotFound(self.dir.clone(), candidate.to_owned()))
                    }
                },
            },
        }
    }

    /// Resolve a tool name to its path, given what was read about each of
    /// its candidates (`facts[i]` about the `i`-th of
    /// [`Toolbox::locate_candidates`]) and the canonical toolbox directory:
    /// the first candidate that is a file, if it lies inside the toolbox.
    pub fn locate(
        &self,
        name: &str,
        facts: &[PathFacts],
        canonical_dir: &Result<String, IoFailure>,
        p: Platform,
    ) -> (r: Result<String, ToolboxError>)
        ensures
            res_view(r) == spec_locate(self.dir_view(), name@, facts_view(facts@), io_str(*canonical_dir), p),
    {
        if name.unicode_len() == 0 {
            return Err(ToolboxError::EmptyToolName);
        }
        let cands = self.locate_candidates(name, p);
        let ghost cv = cands@.map_values(|s: String| s@);
        let ghost fv = facts_view(facts@);
        let mut i: usize = 0;
        assert(cv.skip(0) =~= cv);
        assert(fv.skip(0) =~= fv);
        while i < cands.len() && i < facts.len()
            invariant
                cv == cands@.map_values(|s: String| s@),
                cv == spec_locate_candidates(self.dir_view(), name@, p),
                name@.len() != 0,
                fv == facts_view(facts@),
                i <= cands.len(),
                i <= facts@.len(),
                first_file(cv, fv) == (match first_file(cv.skip(i as int), fv.skip(i as int)) {
                    Some(j) => Some(j + i),
                    None => None,
                }),
            decreases cands.len() - i,
        {
            let ghost cs = cv.skip(i as int);
            let ghost fs = fv.skip(i as int);
            assert(fs[0] == facts@[i as int]@);
            assert(cs.drop_first() =~= cv.skip(i + 1));
            assert(fs.drop_first() =~= fv.skip(i + 1));
            if facts[i].is_file {
                assert(cv[i as int] == cands@[i as int]@);
                assert(fv[i as int] == facts@[i as int]@);
                assert(cs.len() > 0 && fs.len() > 0);
                assert(first_file(cs, fs) == Some(0int));
                assert(first_file(cv, fv) == Some(i as int));
                let r = self.ensure_within(cands[i].as_str(), &facts[i], canonical_dir, p);
                assert(res_view(r) == spec_within(self.dir_view(), cv[i as int], fv[i as int], io_str(*canonical_dir), p));
                assert(cv == spec_locate_candidates(self.dir_view(), name@, p));
                assert(name@.len() != 0);
                return r;
            }
            i = i + 1;
        }
        assert(first_file(cv.skip(i as int), fv.skip(i as int)) is None);
        Err(ToolboxError::ToolNotFound(self.dir.clone(), name.to_owned()))
    }

    /// List the toolbox directory from what was read: files and
    /// directories (following symlinks), sorted by name. Dangling symlinks
    /// and special files are skipped; a directory that cannot be read, an
    /// entry that cannot be read, or metadata that fails other than by not
    /// being found fail the listing.
    pub fn list(&self, listing: &Listing) -> (r: Result<Vec<Tool>, ToolboxError>)
        ensures
            match self.list_spec(listing) {
                Err(e) => r matches Err(x) && x@ == e,
                Ok(ts) => r matches Ok(tools) && tools_view(tools@).to_multiset() == ts.to_multiset()
                    && sorted_by_key(tools@) && seqs_sorted(names_of(tools_view(tools@)))
                    && forall|i: int|
                    0 <= i < tools@.len() ==> ((#[trigger] tools@[i]).size is Some) == (tools@[i].kind
                        == ToolKind::File),
            },
    {
        let es = match listing {
            Err(e) => {
                if e.kind == IoKind::NotFound {
                    return Err(ToolboxError::MissingDirectory(self.dir.clone()));
                } else if e.kind == IoKind::NotADirectory {
                    return Err(ToolboxError::NotADirectory(self.dir.clone()));
                } else {
                    return Err(ToolboxError::ReadError(self.dir.clone(), e.text.clone()));
                }
            },
            Ok(es) => es,
        };
        let ghost ev = es@.map_values(|e: Result<DirEntry, IoFailure>| read_entry_view(e));
        let mut tools: Vec<Tool> = Vec::new();
        let mut i: usize = 0;
        while i < es.len()
            invariant
                *listing == Ok::<Vec<Result<DirEntry, IoFailure>>, IoFailure>(*es),
                ev == es@.map_values(|e: Result<DirEntry, IoFailure>| read_entry_view(e)),
                i <= es.len(),
                first_failure(ev.take(i as int)) is None,
                tools_view(tools@) == entries_tools(ok_entries(ev.take(i as int))),
            decreases es.len() - i,
        {
            let ghost before = tools@;
            assert(ev.take(i + 1).drop_last() =~= ev.take(i as int));
            assert(ev.take(i + 1).last() == read_entry_view(es@[i as int]));
            assert(ok_entries(ev.take(i + 1)).drop_last() =~= ok_entries(ev.take(i as int)));
            match &es[i] {
                Err(e) => {
                    assert(ev[i as int] == read_entry_view(es@[i as int]));
                    proof {
                        lemma_first_failure_prefix(ev, i + 1);
                    }
                    assert(failure_text(ev[i as int]) == e.text@);
                    assert(self.list_spec(listing) == Err::<Seq<ToolV>, ToolboxErrorV>(ToolboxErrorV::ReadError(self.dir_view(), e.text@)));
                    return Err(ToolboxError::ReadError(self.dir.clone(), e.text.clone()));
                },
                Ok(d) => {
                    assert(ok_entries(ev.take(i + 1)).last() == d@);
                    match &d.meta {
                        Err(f) => {
                            if f.kind != IoKind::NotFound {
                                assert(ev[i as int] == read_entry_view(es@[i as int]));
                                proof {
                                    lemma_first_failure_prefix(ev, i + 1);
                                }
                                return Err(ToolboxError::ReadError(self.dir.clone(), f.text.clone()));
                            }
                        },
                        Ok(EntryMeta::File(n)) => {
                            tools.push(
                                Tool { name: d.name.clone(), path: d.path.clone(), kind: ToolKind::File, size: Some(*n) },
                            );
                        },
                        Ok(EntryMeta::Directory) => {
                            tools.push(
                                Tool {
                                    name: d.name.clone(),
                                    path: d.path.clone(),
                                    kind: ToolKind::Directory,
                                    size: None,
                                },
                            );
                        },
                        Ok(EntryMeta::Special) => {},
                    }
                },
            }
            assert(tools_view(tools@) =~= entries_tools(ok_entries(ev.take(i + 1))));
            i = i + 1;
        }
        assert(ev.take(es.len() as int) =~= ev);
        let sorted = sort_by_key(tools);
        proof {
            lemma_map_multiset(tools@, sorted@, |t: Tool| t@);
            let sv = tools_view(sorted@);
            let nv = names_of(sv);
            assert forall|a: int, b: int| 0 <= a < b < nv.len() implies crate::order::seq_le(
                #[trigger] nv[a],
                #[trigger] nv[b],
            ) by {
                assert(nv[a] == sorted@[a].key_of());
                assert(nv[b] == sorted@[b].key_of());
            }
            let ts = entries_tools(ok_entries(ev));
            lemma_entries_tools_shape(ok_entries(ev));
            assert forall|i: int| 0 <= i < sorted@.len() implies ((#[trigger] sorted@[i]).size is Some)
                == (sorted@[i].kind == ToolKind::File) by {
                assert(sv[i] == sorted@[i]@);
                vstd::seq_lib::to_multiset_contains(sv, sv[i]);
                vstd::seq_lib::to_multiset_contains(ts, sv[i]);
                assert(sv.contains(sv[i]));
                let j = choose|j: int| 0 <= j < ts.len() && ts[j] == sv[i];
            }
        }
        Ok(sorted)
    }

    /// Names of all toolbox entries, sorted, from what was read.
    pub fn list_names(&self, listing: &Listing) -> (r: Result<Vec<String>, ToolboxError>)
        ensures
            match self.list_spec(listing) {
                Err(e) => r matches Err(x) && x@ == e,
                Ok(tools) => r matches Ok(names) && names@.map_values(|s: String| s@).to_multiset()
                    == tools.map_values(|t: ToolV| t.name).to_multiset() && sorted_by_key(names@)
                    && forall|listed: Seq<ToolV>|
                    listed.to_multiset() == tools.to_multiset() && seqs_sorted(
                        #[trigger] names_of(listed),
                    ) ==> names@.map_values(|s: String| s@) == names_of(listed),
            },
    {
        match self.list(listing) {
            Err(e) => Err(e),
            Ok(tools) => {
                let mut names: Vec<String> = Vec::new();
                let mut i: usize = 0;
                while i < tools.len()
                    invariant
                        i <= tools.len(),
                        names@.len() == i,
                        forall|j: int| 0 <= j < i ==> #[trigger] names@[j]@ == tools@[j].name@,
                    decreases tools.len() - i,
                {
                    names.push(tools[i].name.clone());
                    i = i + 1;
                }
                assert(names@.map_values(|s: String| s@) =~= tools_view(tools@).map_values(|t: ToolV| t.name));
                proof {
                    assert forall|a: int, b: int| 0 <= a < b < names@.len() implies crate::order::seq_le(
                        #[trigger] names@[a].key_of(),
                        #[trigger] names@[b].key_of(),
                    ) by {
                        assert(tools@[a].key_of() == names@[a]@);
                        assert(tools@[b].key_of() == names@[b]@);
                    }
                    if let Ok(ts) = self.list_spec(listing) {
                        lemma_map_multiset(tools_view(tools@), ts, |t: ToolV| t.name);
                        let nv = names@.map_values(|s: String| s@);
                        assert(seqs_sorted(nv)) by {
                            assert forall|a: int, b: int| 0 <= a < b < nv.len() implies crate::order::seq_le(
                                #[trigger] nv[a],
                                #[trigger] nv[b],
                            ) by {
                                assert(nv[a] == names@[a].key_of());
                                assert(nv[b] == names@[b].key_of());
                            }
                        }
                        assert forall|listed: Seq<ToolV>|
                            listed.to_multiset() == ts.to_multiset() && seqs_sorted(
                                #[trigger] names_of(listed),
                            ) implies nv == names_of(listed) by {
                            lemma_map_multiset(listed, ts, |t: ToolV| t.name);
                            assert(names_of(listed) == listed.map_values(|t: ToolV| t.name));
                            lemma_sorted_permutation_unique(nv, names_of(listed));
                        }
                    }
                }
                Ok(names)
            },
        }
    }

    /// What [`Toolbox::list`] gives, up to the order of tools with equal
    /// names: the error, or the tools as a multiset-carrying sequence.
    pub open spec fn list_spec(&self, listing: &Listing) -> Result<Seq<ToolV>, ToolboxErrorV> {
        match listing {
            Err(e) => Err(if e.kind == IoKind::NotFound {
                ToolboxErrorV::MissingDirectory(self.dir_view())
            } else if e.kind == IoKind::NotADirectory {
                ToolboxErrorV::NotADirectory(self.dir_view())
            } else {
                ToolboxErrorV::ReadError(self.dir_view(), e.text@)
            }),
            Ok(es) => {
                let ev = es@.map_values(|e: Result<DirEntry, IoFailure>| read_entry_view(e));
                match first_failure(ev) {
                    Some(i) => Err(ToolboxErrorV::ReadError(self.dir_view(), failure_text(ev[i]))),
                    None => Ok(entries_tools(ok_entries(ev))),
                }
            },
        }
    }
}

/// When the entries before the `k`-th do not fail and the `k`-th does, the
/// `k`-th is the first failure.
pub proof fn lemma_first_failure_prefix(es: Seq<Result<DirEntryV, IoFailureV>>, k: int)
    requires
        0 <= k <= es.len(),
        first_failure(es.take(k - 1)) is None,
        k >= 1,
        entry_fails(es[k - 1]),
    ensures
        first_failure(es) == Some(k - 1),
    decreases es.len() - k,
{
    assert(es.take(k).drop_last() =~= es.take(k - 1));
    assert(es.take(k).last() == es[k - 1]);
    lemma_first_failure_extend(es, k);
}

/// A failure among the first `k` entries is the first failure of all.
pub proof fn lemma_first_failure_extend(es: Seq<Result<DirEntryV, IoFailureV>>, k: int)
    requires
        0 <= k <= es.len(),
        first_failure(es.take(k)) is Some,
    ensures
        first_failure(es) == first_failure(es.take(k)),
    decreases es.len() - k,
{
    if k < es.len() {
        assert(es.take(k + 1).drop_last() =~= es.take(k));
        lemma_first_failure_extend(es, k + 1);
    } else {
        assert(es.take(k) =~= es);
    }
}

/// What removing a toolbox entry does to the filesystem.
#[derive(Clone, Copy, Debug, PartialEq, Eq, Structural)]
pub enum RemoveKind {
    /// Delete a file.
    File,
    /// Delete a symlink entry (never its target).
    Link,
    /// Delete a directory and its contents.
    Tree,
}

/// A removal to perform: what to delete, and where.
#[derive(Clone, Debug, PartialEq, Eq)]
pub struct RemoveAction {
    /// How the entry is deleted.
    pub kind: RemoveKind,
    /// The entry's path.
    pub path: String,
}

/// What was read about the toolbox entry named by a `remove` that found no
/// file: the entry's own facts (not following a symlink; `facts.canonical`
/// is its canonical form), whether it is a directory, and whether a
/// symlink's target is a directory.
pub struct EntryFacts {
    /// The entry's facts; `facts.is_symlink` says whether it is a symlink.
    pub facts: PathFacts,
    /// Whether the entry itself is a directory.
    pub is_dir: bool,
    /// Whether the entry, followed, is a directory.
    pub target_is_dir: bool,
}

/// What was read about a removed entry, as a value.
pub struct EntryFactsV {
    pub facts: PathFactsV,
    pub is_dir: bool,
    pub target_is_dir: bool,
}

impl View for EntryFacts {
    type V = EntryFactsV;

    open spec fn view(&self) -> EntryFactsV {
        EntryFactsV { facts: self.facts@, is_dir: self.is_dir, target_is_dir: self.target_is_dir }
    }
}

/// The view of what was read about a removed entry: nothing when its
/// metadata could not be read.
pub open spec fn entry_view(e: Option<EntryFacts>) -> Option<EntryFactsV> {
    match e {
        Some(x) => Some(x@),
        None => None,
    }
}

/// The removal of a directory entry named `name` (matched by exact name):
/// a symlink is judged by its own position and needs `recursive` only when
/// its target is a directory; a directory must resolve inside the toolbox
/// and needs `recursive`; anything else is not found.
pub open spec fn spec_remove_dir_entry(
    dir: Seq<char>,
    name: Seq<char>,
    recursive: bool,
    entry: Option<EntryFactsV>,
    canonical_dir: Result<Seq<char>, IoFailureV>,
    p: Platform,
) -> Result<(RemoveKind, Seq<char>), ToolboxErrorV> {
    let cand = spec_join(dir, name, p);
    if spec_is_absolute(name, p) {
        Err(ToolboxErrorV::ToolNotFound(dir, name))
    } else {
        match entry {
            None => Err(ToolboxErrorV::ToolNotFound(dir, name)),
            Some(e) => if e.facts.is_symlink {
                if !lexically_within(dir, cand, p) {
                    Err(ToolboxErrorV::ToolNotFound(dir, name))
                } else if e.target_is_dir && !recursive {
                    Err(ToolboxErrorV::RemoveDirectory(cand))
                } else {
                    Ok((RemoveKind::Link, cand))
                }
            } else if e.is_dir {
                match spec_within(dir, cand, e.facts, canonical_dir, p) {
                    Err(x) => Err(x),
                    Ok(_) => if !recursive {
                        Err(ToolboxErrorV::RemoveDirectory(cand))
                    } else {
                        Ok((RemoveKind::Tree, cand))
                    },
                }
            } else {
                Err(ToolboxErrorV::ToolNotFound(dir, name))
            },
        }
    }
}

/// The removal of `name`: the file it resolves to as a lookup would (see
/// [`spec_locate`]); when it resolves to no file, the directory entry of
/// that exact name (see [`spec_remove_dir_entry`]).
pub open spec fn spec_remove_entry(
    dir: Seq<char>,
    name: Seq<char>,
    recursive: bool,
    facts: Seq<PathFactsV>,
    canonical_dir: Result<Seq<char>, IoFailureV>,
    entry: Option<EntryFactsV>,
    p: Platform,
) -> Result<(RemoveKind, Seq<char>), ToolboxErrorV> {
    match spec_locate(dir, name, facts, canonical_dir, p) {
        Ok(path) => Ok((RemoveKind::File, path)),
        Err(ToolboxErrorV::ToolNotFound(_, _)) => spec_remove_dir_entry(dir, name, recursive, entry, canonical_dir, p),
        Err(e) => Err(e),
    }
}

/// The view of a removal decision.
pub open spec fn action_view(r: Result<RemoveAction, ToolboxError>) -> Result<(RemoveKind, Seq<char>), ToolboxErrorV> {
    match r {
        Ok(a) => Ok((a.kind, a.path@)),
        Err(e) => Err(e@),
    }
}

impl Toolbox {
    /// Decide the removal of the directory entry named exactly `name`
    /// (see [`spec_remove_dir_entry`]); `entry` is what was read about
    /// `dir/name`, or nothing when its metadata could not be read.
    fn remove_directory_entry(
        &self,
        name: &str,
        recursive: bool,
        entry: &Option<EntryFacts>,
        canonical_dir: &Result<String, IoFailure>,
        p: Platform,
    ) -> (r: Result<RemoveAction, ToolboxError>)
        ensures
            action_view(r) == spec_remove_dir_entry(
                self.dir_view(),
                name@,
                recursive,
                entry_view(*entry),
                io_str(*canonical_dir),
                p,
            ),
    {
        if is_absolute(name, p) {
            return Err(ToolboxError::ToolNotFound(self.dir.clone(), name.to_owned()));
        }
        let candidate = join(self.dir.as_str(), name, p);
        let e = match entry {
            Some(e) => e,
            None => return Err(ToolboxError::ToolNotFound(self.dir.clone(), name.to_owned())),
        };
        if e.facts.is_symlink {
            if !self.is_lexically_within(candidate.as_str(), p) {
                return Err(ToolboxError::ToolNotFound(self.dir.clone(), name.to_owned()));
            }
            if e.target_is_dir && !recursive {
                return Err(ToolboxError::RemoveDirectory(candidate));
            }
            Ok(RemoveAction { kind: RemoveKind::Link, path: candidate })
        } else if e.is_dir {
            match self.ensure_within(candidate.as_str(), &e.facts, canonical_dir, p) {
                Err(x) => return Err(x),
                Ok(_) => {},
            }
            if !recursive {
                return Err(ToolboxError::RemoveDirectory(candidate));
            }
            Ok(RemoveAction { kind: RemoveKind::Tree, path: candidate })
        } else {
            Err(ToolboxError::ToolNotFound(self.dir.clone(), name.to_owned()))
        }
    }

    /// Decide the removal of a tool (see [`spec_remove_entry`]): files are
    /// resolved like [`Toolbox::locate`] (`facts` and `canonical_dir` as
    /// there); when that finds no file, directories (and directory
    /// symlinks) are matched by exact name and need `recursive`, with
    /// `entry` what was read about `dir/name`. Entries outside the toolbox
    /// are not found; a symlink inside is removed as an entry, never its
    /// target.
    pub fn remove(
        &self,
        name: &str,
        recursive: bool,
        facts: &[PathFacts],
        canonical_dir: &Result<String, IoFailure>,
        entry: &Option<EntryFacts>,
        p: Platform,
    ) -> (r: Result<RemoveAction, ToolboxError>)
        ensures
            action_view(r) == spec_remove_entry(
                self.dir_view(),
                name@,
                recursive,
                facts_view(facts@),
                io_str(*canonical_dir),
                entry_view(*entry),
                p,
            ),
    {
        match self.locate(name, facts, canonical_dir, p) {
            Ok(path) => Ok(RemoveAction { kind: RemoveKind::File, path }),
            Err(ToolboxError::ToolNotFound(..)) => self.remove_directory_entry(name, recursive, entry, canonical_dir, p),
            Err(e) => Err(e),
        }
    }

    /// The result of performing `action`: its path, or the failure to
    /// delete it.
    pub fn finish_remove(action: RemoveAction, done: Result<(), IoFailure>) -> (r: Result<String, ToolboxError>)
        ensures
            match done {
                Ok(()) => r matches Ok(p) && p@ == action.path@,
                Err(e) => r matches Err(x) && x@ == ToolboxErrorV::RemoveError(action.path@, e.text@),
            },
    {
        match done {
            Ok(()) => Ok(action.path),
            Err(e) => Err(ToolboxError::RemoveError(action.path, e.text)),
        }
    }
}

/// Where an `add` puts a tool: the absolute source and the destination
/// inside the toolbox.
#[derive(Clone, Debug, PartialEq, Eq)]
pub struct AddTarget {
    /// The absolute source path.
    pub source: String,
    /// The destination path inside the toolbox.
    pub dest: String,
}

impl Toolbox {
    /// Decide where `add` puts `source`: it must exist (`exists`) and be
    /// made absolute (`absolute` is what that gave); the name is `name`, or
    /// else the absolute source's file name, and must be a single file
    /// name; the destination is that name inside the toolbox.
    pub fn add(
        &self,
        source: &str,
        name: Option<&str>,
        exists: bool,
        absolute: Result<String, IoFailure>,
        p: Platform,
    ) -> (r: Result<AddTarget, ToolboxError>)
        ensures
            !exists ==> (r matches Err(x) && x@ == ToolboxErrorV::AddSourceMissing(source@)),
            exists ==> match absolute {
                Err(e) => r matches Err(x) && x@ == ToolboxErrorV::AbsolutePathError(source@, e.text@),
                Ok(abs) => match (match name {
                    Some(n) => Some(n@),
                    None => spec_file_name(abs@, p),
                }) {
                    None => r matches Err(x) && x@ == ToolboxErrorV::InvalidToolName(abs@),
                    Some(n) => if !spec_is_single_name(n, p) {
                        r matches Err(x) && x@ == ToolboxErrorV::InvalidToolName(n)
                    } else {
                        r matches Ok(t) && t.source@ == abs@ && t.dest@ == spec_join(self.dir_view(), n, p)
                    },
                },
            },
    {
        if !exists {
            return Err(ToolboxError::AddSourceMissing(source.to_owned()));
        }
        let abs = match absolute {
            Ok(a) => a,
            Err(e) => return Err(ToolboxError::AbsolutePathError(source.to_owned(), e.text)),
        };
        let n = match name {
            Some(n) => n.to_owned(),
            None => match file_name(abs.as_str(), p) {
                Some(f) => f,
                None => return Err(ToolboxError::InvalidToolName(abs)),
            },
        };
        if !is_single_name(n.as_str(), p) {
            return Err(ToolboxError::InvalidToolName(n));
        }
        let dest = join(self.dir.as_str(), n.as_str(), p);
        Ok(AddTarget { source: abs, dest })
    }

    /// The result of placing `target` in the toolbox, given what each step
    /// did: the destination was already taken (by any entry, a dangling
    /// symlink too); creating the toolbox directory; linking the source;
    /// copying it when linking failed. A step after one that ended the
    /// `add` is not looked at.
    pub fn finish_add(
        &self,
        target: AddTarget,
        taken: bool,
        mkdir: &Result<(), IoFailure>,
        link: &Result<(), IoFailure>,
        copy: &Result<(), IoFailure>,
    ) -> (r: Result<(AddOutcome, String), ToolboxError>)
        ensures
            taken ==> (r matches Err(x) && x@ == ToolboxErrorV::AlreadyExists(target.dest@)),
            !taken ==> match mkdir {
                Err(e) => r matches Err(x) && x@ == ToolboxErrorV::CreateBinDirError(self.dir_view(), e.text@),
                Ok(()) => match link {
                    Ok(()) => r matches Ok((o, d)) && o == AddOutcome::Linked && d@ == target.dest@,
                    Err(_) => match copy {
                        Ok(()) => r matches Ok((o, d)) && o == AddOutcome::Copied && d@ == target.dest@,
                        Err(e) => r matches Err(x) && x@ == ToolboxErrorV::CopyError(
                            target.source@,
                            target.dest@,
                            e.text@,
                        ),
                    },
                },
            },
    {
        if taken {
            return Err(ToolboxError::AlreadyExists(target.dest));
        }
        if let Err(e) = mkdir {
            return Err(ToolboxError::CreateBinDirError(self.dir.clone(), e.text.clone()));
        }
        if link.is_ok() {
            return Ok((AddOutcome::Linked, target.dest));
        }
        match copy {
            Ok(()) => Ok((AddOutcome::Copied, target.dest)),
            Err(e) => Err(ToolboxError::CopyError(target.source, target.dest, e.text.clone())),
        }
    }
}

/// Whether a candidate that is a file lies inside the toolbox: a symlink
/// by its own position, anything else by its canonical form under the
/// canonical toolbox directory.
pub open spec fn resolved_inside(
    dir: Seq<char>,
    cand: Seq<char>,
    f: PathFactsV,
    canonical_dir: Result<Seq<char>, IoFailureV>,
    p: Platform,
) -> bool {
    if f.is_symlink {
        lexically_within(dir, cand, p)
    } else {
        canonical_dir matches Ok(base) && f.canonical matches Ok(c) && spec_starts_with(c, base, p)
    }
}

proof fn lemma_first_file(cands: Seq<Seq<char>>, facts: Seq<PathFactsV>)
    ensures
        first_file(cands, facts) matches Some(i) ==> 0 <= i < cands.len() && i < facts.len()
            && facts[i].is_file,
    decreases cands.len(),
{
    if cands.len() > 0 && facts.len() > 0 && !facts[0].is_file {
        lemma_first_file(cands.drop_first(), facts.drop_first());
        if let Some(i) = first_file(cands.drop_first(), facts.drop_first()) {
            assert(facts.drop_first()[i] == facts[i + 1]);
        }
    }
}

/// Path boundary of lookups: whatever a tool name resolves to is one of
/// its candidates, is a file, and lies inside the toolbox.
pub proof fn lemma_locate_within(
    dir: Seq<char>,
    name: Seq<char>,
    facts: Seq<PathFactsV>,
    canonical_dir: Result<Seq<char>, IoFailureV>,
    p: Platform,
)
    ensures
        spec_locate(dir, name, facts, canonical_dir, p) matches Ok(path) ==> exists|i: int|
            0 <= i < facts.len() && i < spec_locate_candidates(dir, name, p).len()
                && #[trigger] spec_locate_candidates(dir, name, p)[i] == path && facts[i].is_file
                && resolved_inside(dir, path, facts[i], canonical_dir, p),
{
    let cands = spec_locate_candidates(dir, name, p);
    lemma_first_file(cands, facts);
    if let Ok(path) = spec_locate(dir, name, facts, canonical_dir, p) {
        let i = first_file(cands, facts)->Some_0;
        assert(cands[i] == path);
    }
}

/// Path boundary of removals: a removed file is what a lookup resolves the
/// name to; a removed symlink lies lexically inside the toolbox and needs
/// `recursive` when its target is a directory; a removed directory lies
/// inside the toolbox by its canonical form and needs `recursive`.
pub proof fn lemma_remove_within(
    dir: Seq<char>,
    name: Seq<char>,
    recursive: bool,
    facts: Seq<PathFactsV>,
    canonical_dir: Result<Seq<char>, IoFailureV>,
    entry: Option<EntryFactsV>,
    p: Platform,
)
    ensures
        match spec_remove_entry(dir, name, recursive, facts, canonical_dir, entry, p) {
            Ok((RemoveKind::File, path)) => spec_locate(dir, name, facts, canonical_dir, p) == Ok::<
                Seq<char>,
                ToolboxErrorV,
            >(path),
            Ok((RemoveKind::Link, path)) => path == spec_join(dir, name, p) && lexically_within(dir, path, p)
                && (entry matches Some(e) && e.facts.is_symlink && (e.target_is_dir ==> recursive)),
            Ok((RemoveKind::Tree, path)) => path == spec_join(dir, name, p) && recursive && (entry matches Some(e)
                && e.is_dir && resolved_inside(dir, path, e.facts, canonical_dir, p)),
            Err(_) => true,
        },
{
}

/// The removal of a directory entry by exact name: an absolute name, an
/// entry whose metadata cannot be read, or one that is neither a symlink
/// nor a directory is not found; a symlink outside the toolbox (lexically)
/// is not found, one whose target is a directory needs `recursive`, and
/// otherwise only the link is removed; a directory outside the toolbox is
/// refused as its containment check says, needs `recursive`, and otherwise
/// its tree is removed.
pub proof fn lemma_remove_directory_entry_cases(
    dir: Seq<char>,
    name: Seq<char>,
    recursive: bool,
    entry: Option<EntryFactsV>,
    canonical_dir: Result<Seq<char>, IoFailureV>,
    p: Platform,
)
    ensures
        ({
            let c = spec_join(dir, name, p);
            let r = spec_remove_dir_entry(dir, name, recursive, entry, canonical_dir, p);
            &&& (spec_is_absolute(name, p) || entry is None || (entry is Some && !entry->Some_0.facts.is_symlink
                && !entry->Some_0.is_dir)) ==> r == Err::<(RemoveKind, Seq<char>), ToolboxErrorV>(
                ToolboxErrorV::ToolNotFound(dir, name),
            )
            &&& !spec_is_absolute(name, p) ==> (entry matches Some(e) ==> (e.facts.is_symlink ==> r == (if !lexically_within(dir, c, p) {
                Err(ToolboxErrorV::ToolNotFound(dir, name))
            } else if e.target_is_dir && !recursive {
                Err(ToolboxErrorV::RemoveDirectory(c))
            } else {
                Ok((RemoveKind::Link, c))
            })))
            &&& !spec_is_absolute(name, p) ==> (entry matches Some(e) ==> (!e.facts.is_symlink && e.is_dir ==> r
                == (match spec_within(dir, c, e.facts, canonical_dir, p) {
                Err(x) => Err(x),
                Ok(_) => if !recursive {
                    Err(ToolboxErrorV::RemoveDirectory(c))
                } else {
                    Ok((RemoveKind::Tree, c))
                },
            })))
        }),
{
}

} // verus!
