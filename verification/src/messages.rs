//! User-facing text: error messages and output lines.

use vstd::prelude::*;

use crate::config::{cat, cat4};
use crate::toolbox::{Tool, ToolKind};

verus! {

/// The decimal digits of `n`.
pub open spec fn decimal(n: nat) -> Seq<char>
    decreases n,
{
    if n < 10 {
        seq![digit_char(n)]
    } else {
        decimal(n / 10).push(digit_char(n % 10))
    }
}

/// The character of a digit.
pub open spec fn digit_char(d: nat) -> char {
    if d == 0 {
        '0'
    } else if d == 1 {
        '1'
    } else if d == 2 {
        '2'
    } else if d == 3 {
        '3'
    } else if d == 4 {
        '4'
    } else if d == 5 {
        '5'
    } else if d == 6 {
        '6'
    } else if d == 7 {
        '7'
    } else if d == 8 {
        '8'
    } else {
        '9'
    }
}

fn digit_str(d: usize) -> (r: &'static str)
    requires
        d < 10,
    ensures
        r@ == seq![digit_char(d as nat)],
{
    if d == 0 {
        proof {
            reveal_strlit("0");
        }
        "0"
    } else if d == 1 {
        proof {
            reveal_strlit("1");
        }
        "1"
    } else if d == 2 {
        proof {
            reveal_strlit("2");
        }
        "2"
    } else if d == 3 {
        proof {
            reveal_strlit("3");
        }
        "3"
    } else if d == 4 {
        proof {
            reveal_strlit("4");
        }
        "4"
    } else if d == 5 {
        proof {
            reveal_strlit("5");
        }
        "5"
    } else if d == 6 {
        proof {
            reveal_strlit("6");
        }
        "6"
    } else if d == 7 {
        proof {
            reveal_strlit("7");
        }
        "7"
    } else if d == 8 {
        proof {
            reveal_strlit("8");
        }
        "8"
    } else {
        proof {
            reveal_strlit("9");
        }
        "9"
    }
}

/// `n` in decimal.
pub fn decimal_string(n: usize) -> (r: String)
    ensures
        r@ == decimal(n as nat),
    decreases n,
{
    if n < 10 {
        digit_str(n).to_owned()
    } else {
        let mut r = decimal_string(n / 10);
        r.append(digit_str(n % 10));
        r
    }
}

/// Prefix printed before every error message.
pub fn error_prefix() -> (r: &'static str)
    ensures
        r@ == "run-cli: error: "@,
{
    "run-cli: error: "
}

/// The header line of a listed group.
pub open spec fn list_header_text(dir: Seq<char>, count: nat) -> Seq<char> {
    "tools in "@ + dir + " ("@ + decimal(count) + "):"@
}

/// Header line of a group in the human-readable `list` output.
pub fn list_header(dir: &str, count: usize) -> (r: String)
    ensures
        r@ == list_header_text(dir@, count as nat),
{
    let n = decimal_string(count);
    let mut r = cat4("tools in ", dir, " (", n.as_str());
    r.append("):");
    r
}

/// Message printed when there is nothing to list.
pub fn no_tools_found(dir: &str) -> (r: String)
    ensures
        r@ == "no tools found in "@ + dir@,
{
    cat("no tools found in ", dir)
}

/// Each name on a line of its own, as `\n  - name`.
pub open spec fn bullets(names: Seq<Seq<char>>) -> Seq<char>
    decreases names.len(),
{
    if names.len() == 0 {
        Seq::empty()
    } else {
        bullets(names.drop_last()) + "\n  - "@ + names.last()
    }
}

/// The suggestion line, when there is a suggestion.
pub open spec fn suggestion_text(suggestion: Option<Seq<char>>) -> Seq<char> {
    match suggestion {
        Some(s) => "\ndid you mean '"@ + s + "'?"@,
        None => Seq::empty(),
    }
}

/// A titled list of names, when there are any.
pub open spec fn titled_list(title: Seq<char>, names: Seq<Seq<char>>) -> Seq<char> {
    if names.len() > 0 {
        title + bullets(names)
    } else {
        Seq::empty()
    }
}

/// The message for an unresolvable tool name.
pub open spec fn tool_not_found_text(
    tool: Seq<char>,
    dir: Seq<char>,
    available: Seq<Seq<char>>,
    suggestion: Option<Seq<char>>,
) -> Seq<char> {
    "tool '"@ + tool + "' not found in "@ + dir + suggestion_text(suggestion) + titled_list(
        "\navailable tools:"@,
        available,
    )
}

/// The views of a list of strings.
pub open spec fn names_view(v: Seq<String>) -> Seq<Seq<char>> {
    v.map_values(|s: String| s@)
}

/// Append `title` and a line per name to `out`, when there are names.
fn push_titled_list(out: &mut String, title: &str, names: &[String])
    ensures
        final(out)@ == old(out)@ + titled_list(title@, names_view(names@)),
{
    if names.len() == 0 {
        assert(old(out)@ + titled_list(title@, names_view(names@)) =~= old(out)@);
        return;
    }
    out.append(title);
    let ghost start = out@;
    let mut i: usize = 0;
    assert(names_view(names@).take(0) =~= Seq::<Seq<char>>::empty());
    while i < names.len()
        invariant
            i <= names@.len(),
            out@ == start + bullets(names_view(names@).take(i as int)),
        decreases names@.len() - i,
    {
        out.append("\n  - ");
        out.append(names[i].as_str());
        proof {
            let t = names_view(names@).take(i + 1);
            assert(t.drop_last() =~= names_view(names@).take(i as int));
            assert(t.last() == names@[i as int]@);
        }
        i = i + 1;
    }
    assert(names_view(names@).take(names@.len() as int) =~= names_view(names@));
}

/// Error message for an unresolvable tool name, with an optional spelling
/// suggestion and the list of available tools.
pub fn tool_not_found(tool: &str, dir: &str, available: &[String], suggestion: Option<&str>) -> (r:
    String)
    ensures
        r@ == tool_not_found_text(
            tool@,
            dir@,
            names_view(available@),
            match suggestion {
                Some(s) => Some(s@),
                None => None,
            },
        ),
{
    let mut message = cat4("tool '", tool, "' not found in ", dir);
    if let Some(s) = suggestion {
        message.append("\ndid you mean '");
        message.append(s);
        message.append("'?");
    }
    push_titled_list(&mut message, "\navailable tools:", available);
    message
}

/// Error message for an unresolvable tool name when neither the config nor
/// the toolbox could be read for a list of names.
pub fn tool_not_found_list_failed(tool: &str, dir: &str) -> (r: String)
    ensures
        r@ == "tool '"@ + tool@ + "' not found in "@ + dir@,
{
    cat4("tool '", tool, "' not found in ", dir)
}

/// The message for a name that is not registered.
pub open spec fn tool_not_registered_text(
    tool: Seq<char>,
    config: Seq<char>,
    registered: Seq<Seq<char>>,
    suggestion: Option<Seq<char>>,
) -> Seq<char> {
    "tool '"@ + tool + "' is not registered in "@ + config + suggestion_text(suggestion)
        + titled_list("\nregistered tools:"@, registered)
}

/// Error message for `remove` with a name that is not registered, with an
/// optional spelling suggestion and the registered names.
pub fn tool_not_registered(
    tool: &str,
    config: &str,
    registered: &[String],
    suggestion: Option<&str>,
) -> (r: String)
    ensures
        r@ == tool_not_registered_text(
            tool@,
            config@,
            names_view(registered@),
            match suggestion {
                Some(s) => Some(s@),
                None => None,
            },
        ),
{
    let mut message = cat4("tool '", tool, "' is not registered in ", config);
    if let Some(s) = suggestion {
        message.append("\ndid you mean '");
        message.append(s);
        message.append("'?");
    }
    push_titled_list(&mut message, "\nregistered tools:", registered);
    message
}

/// Error message for `remove` with a name that is not registered, when the
/// config could not be read for a list of names.
pub fn tool_not_registered_no_list(tool: &str, config: &str) -> (r: String)
    ensures
        r@ == "tool '"@ + tool@ + "' is not registered in "@ + config@,
{
    cat4("tool '", tool, "' is not registered in ", config)
}

/// Confirmation printed after `add` registered a tool.
pub fn added(name: &str, path: &str) -> (r: String)
    ensures
        r@ == "added "@ + name@ + " -> "@ + path@,
{
    cat4("added ", name, " -> ", path)
}

/// Confirmation printed after a symlink was created in the toolbox.
pub fn added_linked(source: &str, dest: &str) -> (r: String)
    ensures
        r@ == "linked "@ + source@ + " -> "@ + dest@,
{
    cat4("linked ", source, " -> ", dest)
}

/// Confirmation printed after a source was copied into the toolbox.
pub fn added_copied(source: &str, dest: &str) -> (r: String)
    ensures
        r@ == "copied "@ + source@ + " to "@ + dest@,
{
    cat4("copied ", source, " to ", dest)
}

/// Confirmation printed after something was removed or unregistered.
pub fn removed(what: &str) -> (r: String)
    ensures
        r@ == "removed "@ + what@,
{
    cat("removed ", what)
}

/// The structured form of a listed entry, for `list --json`: a directory
/// has no size, and only a shadowed toolbox entry says so.
#[derive(Clone, Debug, PartialEq, Eq)]
pub struct ToolJson {
    /// Entry name.
    pub name: String,
    /// Full path of the entry.
    pub path: String,
    /// `"file"` or `"directory"`.
    pub kind: String,
    /// Size in bytes for files.
    pub size: Option<u64>,
    /// `"config"` or `"bin"`.
    pub origin: String,
    /// Whether a config registration shadows this toolbox entry.
    pub shadowed: bool,
}

/// A structured entry, as a value.
pub struct ToolJsonV {
    pub name: Seq<char>,
    pub path: Seq<char>,
    pub kind: Seq<char>,
    pub size: Option<u64>,
    pub origin: Seq<char>,
    pub shadowed: bool,
}

impl View for ToolJson {
    type V = ToolJsonV;

    open spec fn view(&self) -> ToolJsonV {
        ToolJsonV {
            name: self.name@,
            path: self.path@,
            kind: self.kind@,
            size: self.size,
            origin: self.origin@,
            shadowed: self.shadowed,
        }
    }
}

/// The name of a kind, as written in structured output.
pub open spec fn kind_text(k: ToolKind) -> Seq<char> {
    match k {
        ToolKind::File => "file"@,
        ToolKind::Directory => "directory"@,
    }
}

impl ToolJson {
    /// The structured form of `tool`, listed from `origin`.
    pub fn new(tool: &Tool, origin: &str, shadowed: bool) -> (r: ToolJson)
        ensures
            r.name@ == tool.name@,
            r.path@ == tool.path@,
            r.kind@ == kind_text(tool.kind),
            r.size == tool.size,
            r.origin@ == origin@,
            r.shadowed == shadowed,
    {
        let kind = match tool.kind {
            ToolKind::File => "file".to_owned(),
            ToolKind::Directory => "directory".to_owned(),
        };
        ToolJson {
            name: tool.name.clone(),
            path: tool.path.clone(),
            kind,
            size: tool.size,
            origin: origin.to_owned(),
            shadowed,
        }
    }
}

} // verus!
