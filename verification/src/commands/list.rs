//! The `list` command: config registrations and toolbox contents, in two
//! groups (one list sorted by name as JSON). A toolbox entry that a listed
//! registration has exactly the name of is shadowed and marked so; config
//! entries whose path is gone are skipped (like dangling symlinks in the
//! toolbox); a missing toolbox directory counts as empty.

use vstd::prelude::*;

use crate::commands::Error;
use crate::config::{Config, ConfigError, ConfigToolV};
use crate::messages::{kind_text, list_header, list_header_text, no_tools_found, ToolJson, ToolJsonV};
use crate::order::{lemma_map_multiset, seq_le, sort_by_key, sorted_by_key, str_lt, Keyed};
use crate::paths::str_eq;
use crate::toolbox::{
    names_of, tools_view, EntryMeta, Listing, Tool, ToolKind, Toolbox, ToolboxError, ToolboxErrorV, ToolV,
};

verus! {

/// Arguments for `run-cli list`.
#[derive(Debug, Clone, PartialEq, Eq)]
pub struct Args {
    /// Print the listing as JSON.
    pub json: bool,
}

/// A toolbox entry in the listing, and whether a config registration
/// shadows it.
#[derive(Clone, Debug, PartialEq, Eq)]
pub struct BinTool {
    /// The toolbox entry.
    pub tool: Tool,
    /// Whether a listed registration has exactly the entry's name.
    pub shadowed: bool,
}

/// The two groups of a listing: the config registrations whose path is
/// there, and the toolbox entries; each sorted by name.
#[derive(Clone, Debug, PartialEq, Eq)]
pub struct Listed {
    /// Config registrations, as entries.
    pub from_config: Vec<Tool>,
    /// Toolbox entries.
    pub from_bin: Vec<BinTool>,
}

/// The entry a registration stands for, given its path's metadata
/// (following symlinks): files and directories are listed; a path whose
/// metadata could not be read, or that is neither, is skipped.
pub open spec fn config_entry(t: ConfigToolV, meta: Option<EntryMeta>) -> Option<ToolV> {
    match meta {
        Some(EntryMeta::File(n)) => Some(ToolV { name: t.name, path: t.path, kind: ToolKind::File, size: Some(n) }),
        Some(EntryMeta::Directory) => Some(ToolV { name: t.name, path: t.path, kind: ToolKind::Directory, size: None }),
        _ => None,
    }
}

/// The entries of the registrations, in order, skipping those that are
/// not listed; `metas[i]` is the metadata of the `i`-th registration's path.
pub open spec fn config_entries(tools: Seq<ConfigToolV>, metas: Seq<Option<EntryMeta>>) -> Seq<ToolV>
    decreases tools.len(),
{
    if tools.len() == 0 || metas.len() == 0 {
        Seq::empty()
    } else {
        let r = config_entries(tools.drop_last(), metas.drop_last());
        match config_entry(tools.last(), metas.last()) {
            Some(t) => r.push(t),
            None => r,
        }
    }
}

/// The toolbox entries a listing shows: the toolbox's tools, or none when
/// the toolbox directory is missing or not a directory.
pub open spec fn shown_bin(listed: Result<Seq<ToolV>, ToolboxErrorV>) -> Seq<ToolV> {
    match listed {
        Ok(ts) => ts,
        Err(_) => Seq::empty(),
    }
}

/// Whether listing the toolbox failed in a way that fails the command.
pub open spec fn bin_fails(listed: Result<Seq<ToolV>, ToolboxErrorV>) -> bool {
    match listed {
        Err(ToolboxErrorV::MissingDirectory(_)) => false,
        Err(ToolboxErrorV::NotADirectory(_)) => false,
        Err(_) => true,
        Ok(_) => false,
    }
}

/// The views of the toolbox part of a listing.
pub open spec fn bin_tools_view(v: Seq<BinTool>) -> Seq<ToolV> {
    v.map_values(|b: BinTool| b.tool@)
}

/// Whether one of `ts` has exactly the name `name`.
fn named_in(ts: &Vec<Tool>, name: &str) -> (r: bool)
    ensures
        r == names_of(tools_view(ts@)).contains(name@),
{
    let ghost nv = names_of(tools_view(ts@));
    let mut i: usize = 0;
    while i < ts.len()
        invariant
            i <= ts.len(),
            nv == names_of(tools_view(ts@)),
            forall|k: int| 0 <= k < i ==> nv[k] != name@,
        decreases ts.len() - i,
    {
        if str_eq(ts[i].name.as_str(), name) {
            assert(nv[i as int] == name@);
            return true;
        }
        i = i + 1;
    }
    false
}

/// Collect both groups of a listing: the registrations of `config` whose
/// path is a file or directory (`metas[i]` is what the `i`-th
/// registration's path is), and the toolbox entries from `listing`, each
/// marked shadowed when a listed registration has exactly its name.
pub fn collect(
    config: &Config,
    metas: &[Option<EntryMeta>],
    toolbox: &Toolbox,
    listing: &Listing,
) -> (r: Result<Listed, Error>)
    requires
        metas@.len() == config@.len(),
    ensures
        bin_fails(toolbox.list_spec(listing)) ==> (r matches Err(Error::Toolbox(e))
            && toolbox.list_spec(listing) == Err::<Seq<ToolV>, ToolboxErrorV>(e@)),
        !bin_fails(toolbox.list_spec(listing)) ==> (r matches Ok(l) && {
            &&& tools_view(l.from_config@).to_multiset() == config_entries(config@, metas@).to_multiset()
            &&& sorted_by_key(l.from_config@)
            &&& bin_tools_view(l.from_bin@).to_multiset() == shown_bin(toolbox.list_spec(listing)).to_multiset()
            &&& forall|i: int, j: int| 0 <= i < j < l.from_bin@.len() ==>
                crate::order::seq_le(#[trigger] l.from_bin@[i].tool.name@, #[trigger] l.from_bin@[j].tool.name@)
            &&& forall|i: int| 0 <= i < l.from_bin@.len() ==>
                (#[trigger] l.from_bin@[i]).shadowed == names_of(config_entries(config@, metas@)).contains(
                    l.from_bin@[i].tool.name@,
                )
        }),
{
    let mut entries: Vec<Tool> = Vec::new();
    let mut i: usize = 0;
    while i < config.tools.len()
        invariant
            i <= config.tools.len(),
            metas@.len() == config@.len(),
            tools_view(entries@) == config_entries(config@.take(i as int), metas@.take(i as int)),
        decreases config.tools.len() - i,
    {
        let t = &config.tools[i];
        assert(config@.take(i + 1).drop_last() =~= config@.take(i as int));
        assert(metas@.take(i + 1).drop_last() =~= metas@.take(i as int));
        assert(config@.take(i + 1).last() == t@);
        assert(metas@.take(i + 1).last() == metas@[i as int]);
        match metas[i] {
            Some(EntryMeta::File(n)) => {
                entries.push(Tool { name: t.name.clone(), path: t.path.clone(), kind: ToolKind::File, size: Some(n) });
            },
            Some(EntryMeta::Directory) => {
                entries.push(Tool { name: t.name.clone(), path: t.path.clone(), kind: ToolKind::Directory, size: None });
            },
            _ => {},
        }
        assert(tools_view(entries@) =~= config_entries(config@.take(i + 1), metas@.take(i + 1)));
        i = i + 1;
    }
    assert(config@.take(config.tools.len() as int) =~= config@);
    assert(metas@.take(config.tools.len() as int) =~= metas@);
    let from_config = sort_by_key(entries);
    proof {
        lemma_map_multiset(entries@, from_config@, |t: Tool| t@);
    }
    let bin = match toolbox.list(listing) {
        Ok(tools) => tools,
        Err(ToolboxError::MissingDirectory(d)) => {
            let v: Vec<Tool> = Vec::new();
            assert(tools_view(v@) =~= Seq::<ToolV>::empty());
            v
        },
        Err(ToolboxError::NotADirectory(d)) => {
            let v: Vec<Tool> = Vec::new();
            assert(tools_view(v@) =~= Seq::<ToolV>::empty());
            v
        },
        Err(e) => return Err(Error::Toolbox(e)),
    };
    assert(tools_view(bin@).to_multiset() == shown_bin(toolbox.list_spec(listing)).to_multiset());
    let mut from_bin: Vec<BinTool> = Vec::new();
    let mut j: usize = 0;
    while j < bin.len()
        invariant
            j <= bin.len(),
            from_bin@.len() == j,
            forall|k: int| 0 <= k < j ==> (#[trigger] from_bin@[k]).tool@ == bin@[k]@,
            forall|k: int| 0 <= k < j ==> (#[trigger] from_bin@[k]).shadowed == names_of(tools_view(from_config@)).contains(bin@[k].name@),
        decreases bin.len() - j,
    {
        let shadowed = named_in(&from_config, bin[j].name.as_str());
        let b = &bin[j];
        from_bin.push(BinTool {
            tool: Tool { name: b.name.clone(), path: b.path.clone(), kind: b.kind, size: b.size },
            shadowed,
        });
        j = j + 1;
    }
    assert(bin_tools_view(from_bin@) =~= tools_view(bin@));
    proof {
        lemma_map_multiset(tools_view(from_config@), config_entries(config@, metas@), |t: ToolV| t.name);
        assert forall|x: Seq<char>| names_of(tools_view(from_config@)).contains(x) == names_of(config_entries(config@, metas@)).contains(x) by {
            vstd::seq_lib::to_multiset_contains(names_of(tools_view(from_config@)), x);
            vstd::seq_lib::to_multiset_contains(names_of(config_entries(config@, metas@)), x);
        }
        assert forall|a: int, c: int| 0 <= a < c < from_bin@.len() implies crate::order::seq_le(
            #[trigger] from_bin@[a].tool.name@,
            #[trigger] from_bin@[c].tool.name@,
        ) by {
            assert(bin@[a].key_of() == from_bin@[a].tool.name@);
            assert(bin@[c].key_of() == from_bin@[c].tool.name@);
        }
    }
    Ok(Listed { from_config, from_bin })
}

/// One line of the human-readable listing: a bullet, the name, `/` for a
/// directory, and a mark for a shadowed toolbox entry.
pub open spec fn entry_line(name: Seq<char>, kind: ToolKind, shadowed: bool) -> Seq<char> {
    "  - "@ + name + (if kind == ToolKind::Directory {
        "/"@
    } else {
        Seq::<char>::empty()
    }) + (if shadowed {
        " (shadowed)"@
    } else {
        Seq::<char>::empty()
    })
}

/// The config group: its header and a line per entry, when there are any.
pub open spec fn config_group(ts: Seq<Tool>, config_path: Seq<char>) -> Seq<Seq<char>> {
    if ts.len() == 0 {
        Seq::empty()
    } else {
        seq![list_header_text(config_path, ts.len())] + Seq::new(
            ts.len(),
            |i: int| entry_line(ts[i].name@, ts[i].kind, false),
        )
    }
}

/// The toolbox group: its header and a line per entry, when there are any.
pub open spec fn bin_group(bs: Seq<BinTool>, dir: Seq<char>) -> Seq<Seq<char>> {
    if bs.len() == 0 {
        Seq::empty()
    } else {
        seq![list_header_text(dir, bs.len())] + Seq::new(
            bs.len(),
            |i: int| entry_line(bs[i].tool.name@, bs[i].tool.kind, bs[i].shadowed),
        )
    }
}

/// The lines of the human-readable listing: the config group, then the
/// toolbox group; or a single line saying there is nothing.
pub open spec fn rendered(l: Listed, config_path: Seq<char>, dir: Seq<char>) -> Seq<Seq<char>> {
    if l.from_config@.len() == 0 && l.from_bin@.len() == 0 {
        seq!["no tools found in "@ + dir]
    } else {
        config_group(l.from_config@, config_path) + bin_group(l.from_bin@, dir)
    }
}

/// Append one entry line to `out`.
fn push_entry_line(out: &mut Vec<String>, name: &str, kind: ToolKind, shadowed: bool)
    ensures
        final(out)@.len() == old(out)@.len() + 1,
        forall|i: int| 0 <= i < old(out)@.len() ==> final(out)@[i] == old(out)@[i],
        final(out)@[old(out)@.len() as int]@ == entry_line(name@, kind, shadowed),
{
    let mut line = "  - ".to_owned();
    line.append(name);
    if kind == ToolKind::Directory {
        line.append("/");
    }
    if shadowed {
        line.append(" (shadowed)");
    }
    out.push(line);
}

/// The lines of the human-readable listing (see [`rendered`]).
pub fn render(l: &Listed, config_path: &str, dir: &str) -> (r: Vec<String>)
    ensures
        r@.map_values(|s: String| s@) == rendered(*l, config_path@, dir@),
{
    let mut out: Vec<String> = Vec::new();
    if l.from_config.len() == 0 && l.from_bin.len() == 0 {
        out.push(no_tools_found(dir));
        assert(out@.map_values(|s: String| s@) =~= rendered(*l, config_path@, dir@));
        return out;
    }
    if l.from_config.len() > 0 {
        out.push(list_header(config_path, l.from_config.len()));
        let mut i: usize = 0;
        while i < l.from_config.len()
            invariant
                i <= l.from_config@.len(),
                l.from_config@.len() > 0,
                out@.map_values(|s: String| s@) == config_group(l.from_config@, config_path@).take(i + 1),
            decreases l.from_config@.len() - i,
        {
            let ghost before = out@;
            let ghost g = config_group(l.from_config@, config_path@);
            push_entry_line(&mut out, l.from_config[i].name.as_str(), l.from_config[i].kind, false);
            assert(g[i + 1] == entry_line(l.from_config@[i as int].name@, l.from_config@[i as int].kind, false));
            assert(g.take(i + 2) =~= g.take(i + 1).push(g[i + 1]));
            assert(out@.map_values(|s: String| s@) =~= before.map_values(|s: String| s@).push(g[i + 1]));
            assert(out@.map_values(|s: String| s@) =~= config_group(l.from_config@, config_path@).take(i + 2));
            i = i + 1;
        }
        assert(config_group(l.from_config@, config_path@).take(l.from_config@.len() + 1int)
            =~= config_group(l.from_config@, config_path@));
    } else {
        assert(config_group(l.from_config@, config_path@) =~= Seq::<Seq<char>>::empty());
        assert(out@.map_values(|s: String| s@) =~= Seq::<Seq<char>>::empty());
    }
    let ghost first = out@.map_values(|s: String| s@);
    if l.from_bin.len() > 0 {
        out.push(list_header(dir, l.from_bin.len()));
        assert(out@.map_values(|s: String| s@) =~= first + bin_group(l.from_bin@, dir@).take(1));
        let mut j: usize = 0;
        while j < l.from_bin.len()
            invariant
                j <= l.from_bin@.len(),
                l.from_bin@.len() > 0,
                out@.map_values(|s: String| s@) == first + bin_group(l.from_bin@, dir@).take(j + 1),
            decreases l.from_bin@.len() - j,
        {
            let b = &l.from_bin[j];
            let ghost before = out@;
            let ghost g = bin_group(l.from_bin@, dir@);
            push_entry_line(&mut out, b.tool.name.as_str(), b.tool.kind, b.shadowed);
            assert(g[j + 1] == entry_line(b.tool.name@, b.tool.kind, b.shadowed));
            assert(g.take(j + 2) =~= g.take(j + 1).push(g[j + 1]));
            assert(out@.map_values(|s: String| s@) =~= before.map_values(|s: String| s@).push(g[j + 1]));
            assert(out@.map_values(|s: String| s@) =~= first + bin_group(l.from_bin@, dir@).take(j + 2));
            j = j + 1;
        }
        assert(bin_group(l.from_bin@, dir@).take(l.from_bin@.len() + 1int) =~= bin_group(l.from_bin@, dir@));
    } else {
        assert(bin_group(l.from_bin@, dir@) =~= Seq::<Seq<char>>::empty());
    }
    assert(out@.map_values(|s: String| s@) =~= rendered(*l, config_path@, dir@));
    out
}

/// The structured form of a config entry.
pub open spec fn config_json(t: Tool) -> ToolJsonV {
    ToolJsonV {
        name: t.name@,
        path: t.path@,
        kind: kind_text(t.kind),
        size: t.size,
        origin: "config"@,
        shadowed: false,
    }
}

/// The structured form of a toolbox entry.
pub open spec fn bin_json(b: BinTool) -> ToolJsonV {
    ToolJsonV {
        name: b.tool.name@,
        path: b.tool.path@,
        kind: kind_text(b.tool.kind),
        size: b.tool.size,
        origin: "bin"@,
        shadowed: b.shadowed,
    }
}

/// Two lists merged by name: at each step the head with the smaller name,
/// the head of `a` on a tie.
pub open spec fn merge_by_name(a: Seq<ToolJsonV>, b: Seq<ToolJsonV>) -> Seq<ToolJsonV>
    decreases a.len() + b.len(),
{
    if a.len() == 0 {
        b
    } else if b.len() == 0 {
        a
    } else if seq_le(a[0].name, b[0].name) {
        seq![a[0]] + merge_by_name(a.drop_first(), b)
    } else {
        seq![b[0]] + merge_by_name(a, b.drop_first())
    }
}

/// The structured listing: the config entries and the toolbox entries
/// merged into one list sorted by name, a config entry before a toolbox
/// entry of the same name.
pub open spec fn json_listing(l: Listed) -> Seq<ToolJsonV> {
    merge_by_name(
        l.from_config@.map_values(|t: Tool| config_json(t)),
        l.from_bin@.map_values(|b: BinTool| bin_json(b)),
    )
}

/// The views of structured entries.
pub open spec fn jsons_view(v: Seq<ToolJson>) -> Seq<ToolJsonV> {
    v.map_values(|j: ToolJson| j@)
}

/// One step of a merge: the merge of the rests after taking the head of
/// `a`, or of `b`.
proof fn lemma_merge_step(a: Seq<ToolJsonV>, b: Seq<ToolJsonV>, i: int, j: int)
    requires
        0 <= i <= a.len(),
        0 <= j <= b.len(),
        i < a.len() || j < b.len(),
    ensures
        (j == b.len() || (i < a.len() && seq_le(a[i].name, b[j].name))) ==> merge_by_name(a.skip(i), b.skip(j))
            == seq![a[i]] + merge_by_name(a.skip(i + 1), b.skip(j)),
        !(j == b.len() || (i < a.len() && seq_le(a[i].name, b[j].name))) ==> merge_by_name(a.skip(i), b.skip(j))
            == seq![b[j]] + merge_by_name(a.skip(i), b.skip(j + 1)),
{
    let x = a.skip(i);
    let y = b.skip(j);
    if j == b.len() || (i < a.len() && seq_le(a[i].name, b[j].name)) {
        assert(x.drop_first() =~= a.skip(i + 1));
        assert(x[0] == a[i]);
        if j == b.len() {
            assert(y.len() == 0);
            assert(merge_by_name(a.skip(i + 1), y) == a.skip(i + 1));
            assert(x =~= seq![a[i]] + a.skip(i + 1));
        }
    } else {
        assert(y.drop_first() =~= b.skip(j + 1));
        assert(y[0] == b[j]);
        if i == a.len() {
            assert(x.len() == 0);
            assert(y =~= seq![b[j]] + b.skip(j + 1));
        }
    }
}

/// Whether structured entries are sorted by name.
pub open spec fn jsons_sorted(s: Seq<ToolJsonV>) -> bool {
    forall|i: int, j: int| 0 <= i < j < s.len() ==> seq_le(#[trigger] s[i].name, #[trigger] s[j].name)
}

/// Merging two lists sorted by name gives a list sorted by name that holds
/// exactly the entries of both.
pub proof fn lemma_merge_by_name(a: Seq<ToolJsonV>, b: Seq<ToolJsonV>)
    requires
        jsons_sorted(a),
        jsons_sorted(b),
    ensures
        jsons_sorted(merge_by_name(a, b)),
        merge_by_name(a, b).to_multiset() == a.to_multiset().add(b.to_multiset()),
    decreases a.len() + b.len(),
{
    broadcast use vstd::seq_lib::lemma_multiset_commutative;
    broadcast use vstd::seq_lib::group_to_multiset_ensures;
    broadcast use vstd::multiset::group_multiset_axioms;

    if a.len() == 0 {
        assert(a =~= Seq::<ToolJsonV>::empty());
        assert(a.to_multiset().add(b.to_multiset()) =~= b.to_multiset());
    } else if b.len() == 0 {
        assert(b =~= Seq::<ToolJsonV>::empty());
        assert(a.to_multiset().add(b.to_multiset()) =~= a.to_multiset());
    } else {
        let a1 = a.drop_first();
        let b1 = b.drop_first();
        assert(a =~= seq![a[0]] + a1);
        assert(b =~= seq![b[0]] + b1);
        assert(jsons_sorted(a1)) by {
            assert forall|i: int, j: int| 0 <= i < j < a1.len() implies seq_le(#[trigger] a1[i].name, #[trigger] a1[j].name) by {
                assert(a1[i] == a[i + 1]);
                assert(a1[j] == a[j + 1]);
            }
        }
        assert(jsons_sorted(b1)) by {
            assert forall|i: int, j: int| 0 <= i < j < b1.len() implies seq_le(#[trigger] b1[i].name, #[trigger] b1[j].name) by {
                assert(b1[i] == b[i + 1]);
                assert(b1[j] == b[j + 1]);
            }
        }
        let (h, x, y) = if seq_le(a[0].name, b[0].name) {
            (a[0], a1, b)
        } else {
            (b[0], a, b1)
        };
        if !seq_le(a[0].name, b[0].name) {
            crate::order::lemma_le_total(a[0].name, b[0].name);
        }
        lemma_merge_by_name(x, y);
        let rest = merge_by_name(x, y);
        let m = merge_by_name(a, b);
        assert(m == seq![h] + rest);
        // Every entry of either list is at least the head taken.
        assert forall|k: int| 0 <= k < a.len() implies seq_le(h.name, #[trigger] a[k].name) by {
            if k > 0 {
                assert(seq_le(a[0].name, a[k].name));
            } else {
                crate::order::lemma_lt_irreflexive(a[0].name);
            }
            if h != a[0] {
                crate::order::lemma_le_transitive(h.name, a[0].name, a[k].name);
            }
        }
        assert forall|k: int| 0 <= k < b.len() implies seq_le(h.name, #[trigger] b[k].name) by {
            if k > 0 {
                assert(seq_le(b[0].name, b[k].name));
            } else {
                crate::order::lemma_lt_irreflexive(b[0].name);
            }
            if h == a[0] {
                crate::order::lemma_le_transitive(h.name, b[0].name, b[k].name);
            }
        }
        assert forall|i: int, j: int| 0 <= i < j < m.len() implies seq_le(#[trigger] m[i].name, #[trigger] m[j].name) by {
            if i > 0 {
                assert(m[i] == rest[i - 1]);
                assert(m[j] == rest[j - 1]);
            } else {
                let e = rest[j - 1];
                assert(m[j] == e);
                assert(rest.to_multiset().count(e) > 0) by {
                    vstd::seq_lib::to_multiset_contains(rest, e);
                    assert(rest.contains(e));
                }
                if x.to_multiset().count(e) > 0 {
                    vstd::seq_lib::to_multiset_contains(x, e);
                    let k = choose|k: int| 0 <= k < x.len() && x[k] == e;
                    if h == a[0] {
                        assert(x[k] == a[k + 1]);
                    }
                } else {
                    vstd::seq_lib::to_multiset_contains(y, e);
                    let k = choose|k: int| 0 <= k < y.len() && y[k] == e;
                    if h != a[0] {
                        assert(y[k] == b[k + 1]);
                    }
                }
            }
        }
        assert((seq![h] + rest).to_multiset() =~= seq![h].to_multiset().add(rest.to_multiset()));
        if h == a[0] && seq_le(a[0].name, b[0].name) {
            assert((seq![a[0]] + a1).to_multiset() =~= seq![a[0]].to_multiset().add(a1.to_multiset()));
        } else {
            assert((seq![b[0]] + b1).to_multiset() =~= seq![b[0]].to_multiset().add(b1.to_multiset()));
        }
    }
}

/// The structured listing is sorted by name and holds every entry of both
/// groups, when each group is sorted by name.
pub proof fn lemma_json_listing_sorted(l: Listed)
    requires
        sorted_by_key(l.from_config@),
        forall|i: int, j: int| 0 <= i < j < l.from_bin@.len() ==>
            seq_le(#[trigger] l.from_bin@[i].tool.name@, #[trigger] l.from_bin@[j].tool.name@),
    ensures
        jsons_sorted(json_listing(l)),
        json_listing(l).to_multiset() == l.from_config@.map_values(|t: Tool| config_json(t)).to_multiset().add(
            l.from_bin@.map_values(|b: BinTool| bin_json(b)).to_multiset(),
        ),
{
    let ca = l.from_config@.map_values(|t: Tool| config_json(t));
    let ba = l.from_bin@.map_values(|b: BinTool| bin_json(b));
    assert forall|i: int, j: int| 0 <= i < j < ca.len() implies seq_le(#[trigger] ca[i].name, #[trigger] ca[j].name) by {
        assert(ca[i].name == l.from_config@[i].key_of());
        assert(ca[j].name == l.from_config@[j].key_of());
    }
    assert forall|i: int, j: int| 0 <= i < j < ba.len() implies seq_le(#[trigger] ba[i].name, #[trigger] ba[j].name) by {
        assert(ba[i].name == l.from_bin@[i].tool.name@);
        assert(ba[j].name == l.from_bin@[j].tool.name@);
    }
    lemma_merge_by_name(ca, ba);
}

/// Without toolbox entries (a missing or non-directory toolbox), the
/// structured listing is the config entries, in their order.
pub proof fn lemma_json_without_toolbox(l: Listed)
    requires
        l.from_bin@.len() == 0,
    ensures
        json_listing(l) == l.from_config@.map_values(|t: Tool| config_json(t)),
{
    let ca = l.from_config@.map_values(|t: Tool| config_json(t));
    let ba = l.from_bin@.map_values(|b: BinTool| bin_json(b));
    assert(ba.len() == 0);
    if ca.len() == 0 {
        assert(ba =~= ca);
    }
}

/// Shadowing in the structured listing: every entry comes from the config,
/// unshadowed, or from the toolbox, shadowed exactly when the listing also
/// holds a config entry of the same name (given the groups as
/// [`collect`] makes them from the listed registrations `listed`).
pub proof fn lemma_json_shadowing(l: Listed, listed: Seq<ToolV>)
    requires
        sorted_by_key(l.from_config@),
        forall|i: int, j: int| 0 <= i < j < l.from_bin@.len() ==>
            seq_le(#[trigger] l.from_bin@[i].tool.name@, #[trigger] l.from_bin@[j].tool.name@),
        tools_view(l.from_config@).to_multiset() == listed.to_multiset(),
        forall|i: int| 0 <= i < l.from_bin@.len() ==>
            (#[trigger] l.from_bin@[i]).shadowed == names_of(listed).contains(l.from_bin@[i].tool.name@),
    ensures
        forall|x: ToolJsonV| #[trigger] json_listing(l).contains(x) ==> (x.origin == "config"@
            && !x.shadowed) || (x.origin == "bin"@ && x.shadowed == (exists|y: ToolJsonV|
            #[trigger] json_listing(l).contains(y) && y.origin == "config"@ && y.name == x.name)),
{
    let jl = json_listing(l);
    let ca = l.from_config@.map_values(|t: Tool| config_json(t));
    let ba = l.from_bin@.map_values(|b: BinTool| bin_json(b));
    let fc = names_of(tools_view(l.from_config@));
    lemma_json_listing_sorted(l);
    reveal_strlit("config");
    reveal_strlit("bin");
    assert("config"@ != "bin"@) by {
        assert("config"@.len() != "bin"@.len());
    }
    lemma_map_multiset(tools_view(l.from_config@), listed, |t: ToolV| t.name);
    assert forall|x: ToolJsonV| #[trigger] jl.contains(x) implies (x.origin == "config"@ && !x.shadowed) || (
    x.origin == "bin"@ && x.shadowed == (exists|y: ToolJsonV|
        #[trigger] jl.contains(y) && y.origin == "config"@ && y.name == x.name)) by {
        vstd::seq_lib::to_multiset_contains(jl, x);
        vstd::seq_lib::to_multiset_contains(ca, x);
        vstd::seq_lib::to_multiset_contains(ba, x);
        if ca.contains(x) {
            let i = choose|i: int| 0 <= i < ca.len() && ca[i] == x;
            assert(x == config_json(l.from_config@[i]));
        } else {
            let i = choose|i: int| 0 <= i < ba.len() && ba[i] == x;
            assert(x == bin_json(l.from_bin@[i]));
            let n = x.name;
            vstd::seq_lib::to_multiset_contains(fc, n);
            vstd::seq_lib::to_multiset_contains(names_of(listed), n);
            if x.shadowed {
                assert(names_of(listed).contains(n));
                let m = choose|m: int| 0 <= m < fc.len() && fc[m] == n;
                let y = ca[m];
                assert(y == config_json(l.from_config@[m]));
                vstd::seq_lib::to_multiset_contains(jl, y);
                vstd::seq_lib::to_multiset_contains(ca, y);
                assert(ca.contains(y));
                assert(jl.contains(y) && y.origin == "config"@ && y.name == x.name);
            }
            if exists|y: ToolJsonV| #[trigger] jl.contains(y) && y.origin == "config"@ && y.name == x.name {
                let y = choose|y: ToolJsonV| #[trigger] jl.contains(y) && y.origin == "config"@ && y.name == x.name;
                vstd::seq_lib::to_multiset_contains(jl, y);
                vstd::seq_lib::to_multiset_contains(ca, y);
                vstd::seq_lib::to_multiset_contains(ba, y);
                if ba.contains(y) {
                    let k = choose|k: int| 0 <= k < ba.len() && ba[k] == y;
                    assert(y == bin_json(l.from_bin@[k]));
                }
                let m = choose|m: int| 0 <= m < ca.len() && ca[m] == y;
                assert(y == config_json(l.from_config@[m]));
                assert(fc[m] == n);
                assert(fc.contains(n));
            }
        }
    }
}

/// The structured form of a listing (see [`json_listing`]).
pub fn json_entries(l: &Listed) -> (r: Vec<ToolJson>)
    ensures
        jsons_view(r@) == json_listing(*l),
{
    let ghost ca = l.from_config@.map_values(|t: Tool| config_json(t));
    let ghost ba = l.from_bin@.map_values(|b: BinTool| bin_json(b));
    let n = l.from_config.len();
    let m = l.from_bin.len();
    let mut out: Vec<ToolJson> = Vec::new();
    let mut i: usize = 0;
    let mut j: usize = 0;
    assert(ca.skip(0) =~= ca);
    assert(ba.skip(0) =~= ba);
    assert(jsons_view(out@) =~= Seq::<ToolJsonV>::empty());
    while i < n || j < m
        invariant
            n == l.from_config@.len(),
            m == l.from_bin@.len(),
            ca == l.from_config@.map_values(|t: Tool| config_json(t)),
            ba == l.from_bin@.map_values(|b: BinTool| bin_json(b)),
            i <= n,
            j <= m,
            jsons_view(out@) + merge_by_name(ca.skip(i as int), ba.skip(j as int)) == merge_by_name(ca, ba),
        decreases n + m - i - j,
    {
        let take_config = j == m || (i < n && !str_lt(l.from_bin[j].tool.name.as_str(), l.from_config[i].name.as_str()));
        proof {
            lemma_merge_step(ca, ba, i as int, j as int);
        }
        let ghost before = jsons_view(out@);
        if take_config {
            let e = ToolJson::new(&l.from_config[i], "config", false);
            assert(e@ == ca[i as int]);
            out.push(e);
            assert(jsons_view(out@) =~= before.push(ca[i as int]));
            assert(jsons_view(out@) + merge_by_name(ca.skip(i + 1), ba.skip(j as int)) =~= before + (
            seq![ca[i as int]] + merge_by_name(ca.skip(i + 1), ba.skip(j as int))));
            i = i + 1;
        } else {
            let b = &l.from_bin[j];
            let e = ToolJson::new(&b.tool, "bin", b.shadowed);
            assert(e@ == ba[j as int]);
            out.push(e);
            assert(jsons_view(out@) =~= before.push(ba[j as int]));
            assert(jsons_view(out@) + merge_by_name(ca.skip(i as int), ba.skip(j + 1)) =~= before + (
            seq![ba[j as int]] + merge_by_name(ca.skip(i as int), ba.skip(j + 1))));
            j = j + 1;
        }
    }
    assert(ca.skip(n as int) =~= Seq::<ToolJsonV>::empty());
    assert(ba.skip(m as int) =~= Seq::<ToolJsonV>::empty());
    assert(merge_by_name(ca.skip(n as int), ba.skip(m as int)) =~= Seq::<ToolJsonV>::empty());
    assert(jsons_view(out@) =~= jsons_view(out@) + merge_by_name(ca.skip(n as int), ba.skip(m as int)));
    out
}

/// What `list` prints: lines, or entries to write as JSON.
pub enum ListOutput {
    /// The human-readable lines.
    Lines(Vec<String>),
    /// The structured entries.
    Json(Vec<ToolJson>),
}

/// Decide a `list`, given the config as loaded from `config_path`, what
/// each registration's path is (`metas[i]` for the `i`-th), and the
/// toolbox listing: a config that failed to load fails the command, and
/// so does a toolbox that could not be read (one that is missing or not a
/// directory counts as empty).
pub fn execute(
    args: &Args,
    config: Result<Config, ConfigError>,
    metas: &[Option<EntryMeta>],
    toolbox: &Toolbox,
    config_path: &str,
    listing: &Listing,
) -> (r: Result<ListOutput, Error>)
    requires
        config matches Ok(c) ==> metas@.len() == c@.len(),
    ensures
        config matches Err(e) ==> r == Err::<ListOutput, Error>(Error::Config(e)),
        config is Ok && bin_fails(toolbox.list_spec(listing)) ==> (r matches Err(Error::Toolbox(e))
            && toolbox.list_spec(listing) == Err::<Seq<ToolV>, ToolboxErrorV>(e@)),
        config matches Ok(c) ==> (!bin_fails(toolbox.list_spec(listing)) ==> r is Ok && exists|l: Listed|
            {
                &&& tools_view(l.from_config@).to_multiset() == config_entries(c@, metas@).to_multiset()
                &&& sorted_by_key(l.from_config@)
                &&& bin_tools_view(l.from_bin@).to_multiset() == shown_bin(toolbox.list_spec(listing)).to_multiset()
                &&& forall|i: int, j: int| 0 <= i < j < l.from_bin@.len() ==> crate::order::seq_le(
                    #[trigger] l.from_bin@[i].tool.name@,
                    #[trigger] l.from_bin@[j].tool.name@,
                )
                &&& forall|i: int| 0 <= i < l.from_bin@.len() ==> (#[trigger] l.from_bin@[i]).shadowed
                    == names_of(config_entries(c@, metas@)).contains(l.from_bin@[i].tool.name@)
                &&& match r {
                    Ok(ListOutput::Json(v)) => args.json && jsons_view(v@) == json_listing(l),
                    Ok(ListOutput::Lines(v)) => !args.json && v@.map_values(|s: String| s@)
                        == rendered(l, config_path@, toolbox.dir_view()),
                    _ => false,
                }
            }),
{
    let config = match config {
        Ok(c) => c,
        Err(e) => return Err(Error::Config(e)),
    };
    let l = match collect(&config, metas, toolbox, listing) {
        Ok(l) => l,
        Err(e) => return Err(e),
    };
    if args.json {
        Ok(ListOutput::Json(json_entries(&l)))
    } else {
        Ok(ListOutput::Lines(render(&l, config_path, toolbox.dir())))
    }
}

} // verus!
