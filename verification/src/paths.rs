//! Lexical path handling on plain strings.
//!
//! A path is a string. It is read as a sequence of components, the way the
//! standard library reads it: an optional drive prefix (`C:`, Windows only),
//! an optional root (a leading separator), an optional leading `.`, then one
//! component per non-empty segment between separators, where `.` segments
//! are dropped and `..` is a parent component. Nothing here touches a
//! filesystem.

use vstd::prelude::*;

verus! {

/// The platform whose path and name rules apply.
#[derive(Clone, Copy, Debug, PartialEq, Eq, Structural)]
pub enum Platform {
    /// Unix-like systems: `/` separates components, names match exactly.
    Unix,
    /// Windows: `/` and `\` separate components, names match ignoring ASCII
    /// case, and bare tool names are completed with extensions.
    Windows,
}

/// A path component, as a mathematical value.
pub enum CompV {
    /// A drive prefix such as `C:`, holding the drive letter.
    Prefix(char),
    /// The root separator.
    Root,
    /// A leading `.`.
    Cur,
    /// A `..` component.
    Parent,
    /// Any other component.
    Normal(Seq<char>),
}

/// A path component.
#[derive(Debug)]
pub enum Component {
    /// A drive prefix such as `C:`, holding the drive letter.
    Prefix(char),
    /// The root separator.
    Root,
    /// A leading `.`.
    Cur,
    /// A `..` component.
    Parent,
    /// Any other component.
    Normal(String),
}

impl View for Component {
    type V = CompV;

    open spec fn view(&self) -> CompV {
        match self {
            Component::Prefix(c) => CompV::Prefix(*c),
            Component::Root => CompV::Root,
            Component::Cur => CompV::Cur,
            Component::Parent => CompV::Parent,
            Component::Normal(s) => CompV::Normal(s@),
        }
    }
}

/// Whether `c` separates path components on `p`.
pub open spec fn is_sep(c: char, p: Platform) -> bool {
    c == '/' || (p == Platform::Windows && c == '\\')
}

/// Whether `c` is an ASCII letter.
pub open spec fn is_ascii_alpha(c: char) -> bool {
    ('a' <= c && c <= 'z') || ('A' <= c && c <= 'Z')
}

/// Whether two characters are equal ignoring ASCII case.
pub open spec fn char_eq_ignore_case(a: char, b: char) -> bool {
    a == b || (is_ascii_alpha(a) && is_ascii_alpha(b) && (a as int - b as int == 32 || b as int
        - a as int == 32))
}

/// Whether two strings are equal ignoring ASCII case.
pub open spec fn eq_ignore_ascii_case(a: Seq<char>, b: Seq<char>) -> bool {
    a.len() == b.len() && forall|i: int| 0 <= i < a.len() ==> char_eq_ignore_case(a[i], b[i])
}

/// Whether `s` starts with a drive prefix (`C:`) on `p`.
pub open spec fn has_drive_prefix(s: Seq<char>, p: Platform) -> bool {
    p == Platform::Windows && s.len() >= 2 && is_ascii_alpha(s[0]) && s[1] == ':'
}

/// The length of the drive prefix of `s`.
pub open spec fn prefix_len(s: Seq<char>, p: Platform) -> int {
    if has_drive_prefix(s, p) {
        2
    } else {
        0
    }
}

/// Whether `s` has a root separator (after its drive prefix, if any).
pub open spec fn has_root(s: Seq<char>, p: Platform) -> bool {
    let pl = prefix_len(s, p);
    pl < s.len() && is_sep(s[pl], p)
}

/// Whether `s` starts, on Windows, with two separators: a UNC, verbatim
/// or device prefix (`\\server\share`, `\\?\...`, `\\.\...`).
pub open spec fn has_unc_prefix(s: Seq<char>, p: Platform) -> bool {
    p == Platform::Windows && s.len() >= 2 && is_sep(s[0], p) && is_sep(s[1], p)
}

/// Whether `s` is an absolute path: rooted, and on Windows with a drive;
/// or, on Windows, starting with a UNC, verbatim or device prefix.
pub open spec fn spec_is_absolute(s: Seq<char>, p: Platform) -> bool {
    (has_root(s, p) && (p == Platform::Unix || has_drive_prefix(s, p))) || has_unc_prefix(s, p)
}

/// The segments of `s` between separators, empty ones included.
pub open spec fn split_segments(s: Seq<char>, p: Platform) -> Seq<Seq<char>>
    decreases s.len(),
{
    if s.len() == 0 {
        seq![Seq::<char>::empty()]
    } else {
        let rest = split_segments(s.drop_last(), p);
        if is_sep(s.last(), p) {
            rest.push(Seq::<char>::empty())
        } else {
            rest.update(rest.len() - 1, rest.last().push(s.last()))
        }
    }
}

/// The component a segment stands for: none for an empty or `.` segment.
pub open spec fn seg_comp(seg: Seq<char>) -> Option<CompV> {
    if seg.len() == 0 || seg == seq!['.'] {
        None
    } else if seg == seq!['.', '.'] {
        Some(CompV::Parent)
    } else {
        Some(CompV::Normal(seg))
    }
}

/// The components that a sequence of segments stands for.
pub open spec fn segs_comps(segs: Seq<Seq<char>>) -> Seq<CompV>
    decreases segs.len(),
{
    if segs.len() == 0 {
        Seq::<CompV>::empty()
    } else {
        let r = segs_comps(segs.drop_last());
        match seg_comp(segs.last()) {
            Some(c) => r.push(c),
            None => r,
        }
    }
}

/// The part of `s` after its drive prefix.
pub open spec fn path_body(s: Seq<char>, p: Platform) -> Seq<char> {
    s.skip(prefix_len(s, p))
}

/// The leading components of `s`: drive prefix, root, leading `.`.
pub open spec fn head_comps(s: Seq<char>, p: Platform) -> Seq<CompV> {
    let body = path_body(s, p);
    let root = has_root(s, p);
    let cur = !root && split_segments(body, p)[0] == seq!['.'];
    (if has_drive_prefix(s, p) {
        seq![CompV::Prefix(s[0])]
    } else {
        Seq::<CompV>::empty()
    }) + (if root {
        seq![CompV::Root]
    } else {
        Seq::<CompV>::empty()
    }) + (if cur {
        seq![CompV::Cur]
    } else {
        Seq::<CompV>::empty()
    })
}

/// The components of path `s` on `p`.
pub open spec fn components(s: Seq<char>, p: Platform) -> Seq<CompV> {
    head_comps(s, p) + segs_comps(split_segments(path_body(s, p), p))
}

/// The final component of `s`, when it is a normal component.
pub open spec fn spec_file_name(s: Seq<char>, p: Platform) -> Option<Seq<char>> {
    let c = components(s, p);
    if c.len() > 0 && c.last() is Normal {
        Some(c.last()->Normal_0)
    } else {
        None
    }
}

/// The index of the last `c` in `s`, or -1.
pub open spec fn last_index_of(s: Seq<char>, c: char) -> int
    decreases s.len(),
{
    if s.len() == 0 {
        -1
    } else if s.last() == c {
        s.len() - 1
    } else {
        last_index_of(s.drop_last(), c)
    }
}

/// The extension of a file name: what follows its last `.`, when that `.`
/// is not the first character.
pub open spec fn name_extension(f: Seq<char>) -> Option<Seq<char>> {
    let i = last_index_of(f, '.');
    if i > 0 {
        Some(f.skip(i + 1))
    } else {
        None
    }
}

/// A file name without its extension.
pub open spec fn name_stem(f: Seq<char>) -> Seq<char> {
    let i = last_index_of(f, '.');
    if i > 0 {
        f.take(i)
    } else {
        f
    }
}

/// The extension of path `s`.
pub open spec fn spec_extension(s: Seq<char>, p: Platform) -> Option<Seq<char>> {
    match spec_file_name(s, p) {
        Some(f) => name_extension(f),
        None => None,
    }
}

/// The file stem of path `s`.
pub open spec fn spec_file_stem(s: Seq<char>, p: Platform) -> Option<Seq<char>> {
    match spec_file_name(s, p) {
        Some(f) => Some(name_stem(f)),
        None => None,
    }
}

/// Whether two components are the same (drive letters ignoring case).
pub open spec fn comp_eq(a: CompV, b: CompV) -> bool {
    match (a, b) {
        (CompV::Prefix(x), CompV::Prefix(y)) => char_eq_ignore_case(x, y),
        _ => a == b,
    }
}

/// Whether the components of `base` are a prefix of those of `s`.
pub open spec fn spec_starts_with(s: Seq<char>, base: Seq<char>, p: Platform) -> bool {
    let cs = components(s, p);
    let cb = components(base, p);
    cb.len() <= cs.len() && forall|i: int| 0 <= i < cb.len() ==> comp_eq(cs[i], cb[i])
}

/// Whether `s` has a `..` component.
pub open spec fn spec_has_parent_comp(s: Seq<char>, p: Platform) -> bool {
    exists|i: int| 0 <= i < components(s, p).len() && components(s, p)[i] == CompV::Parent
}

/// Whether `s` is a single file name: non-empty, without a separator,
/// neither `.` nor `..`, and (on Windows) not a drive prefix followed by
/// more (`C:x` is two components).
pub open spec fn spec_is_single_name(s: Seq<char>, p: Platform) -> bool {
    &&& s.len() > 0
    &&& forall|i: int| 0 <= i < s.len() ==> !is_sep(#[trigger] s[i], p)
    &&& s != seq!['.']
    &&& s != seq!['.', '.']
    &&& !(has_drive_prefix(s, p) && s.len() > 2)
}

/// `s` without its trailing separators and trailing `.` segments: the
/// path up to the end of its last component (`sub/` gives `sub`, `a/.`
/// gives `a`).
pub open spec fn spec_trim_trailing(s: Seq<char>, p: Platform) -> Seq<char>
    decreases s.len(),
{
    if s.len() == 0 {
        s
    } else if is_sep(s.last(), p) {
        spec_trim_trailing(s.drop_last(), p)
    } else if s.last() == '.' && (s.len() == 1 || is_sep(s[s.len() - 2], p)) {
        spec_trim_trailing(s.drop_last(), p)
    } else {
        s
    }
}

/// The main separator of `p`.
pub open spec fn main_sep(p: Platform) -> char {
    if p == Platform::Windows {
        '\\'
    } else {
        '/'
    }
}

/// `rel` joined onto `base`, as the standard library's `push` does:
/// `rel` itself when it carries a drive or a UNC prefix (or `base` is
/// empty); `base`'s drive followed by `rel` when `rel` is rooted without a
/// drive; otherwise `base`, a separator unless `base` ends in one or is a
/// bare drive (`C:`), and `rel`.
pub open spec fn spec_join(base: Seq<char>, rel: Seq<char>, p: Platform) -> Seq<char> {
    if has_drive_prefix(rel, p) || has_unc_prefix(rel, p) || base.len() == 0 {
        rel
    } else if has_root(rel, p) {
        base.take(prefix_len(base, p)) + rel
    } else if is_sep(base.last(), p) || (has_drive_prefix(base, p) && base.len() == 2) {
        base + rel
    } else {
        base + seq![main_sep(p)] + rel
    }
}

/// The code of `c` after ASCII lower-casing.
pub open spec fn ascii_lower_code(c: char) -> int {
    if 'A' <= c && c <= 'Z' {
        c as int + 32
    } else {
        c as int
    }
}

/// Two characters are equal ignoring ASCII case exactly when they are
/// equal after ASCII lower-casing; so the comparison is symmetric.
pub proof fn lemma_char_eq_ignore_case_is_lowercase_eq(a: char, b: char)
    ensures
        char_eq_ignore_case(a, b) <==> ascii_lower_code(a) == ascii_lower_code(b),
        char_eq_ignore_case(a, b) == char_eq_ignore_case(b, a),
{
    if ascii_lower_code(a) == ascii_lower_code(b) && a != b {
        assert(a as int != b as int);
    }
}

/// Two strings are equal ignoring ASCII case exactly when they have the
/// same length and are equal after ASCII lower-casing, character by
/// character; so the comparison is symmetric.
pub proof fn lemma_eq_ignore_ascii_case_is_lowercase_eq(a: Seq<char>, b: Seq<char>)
    ensures
        eq_ignore_ascii_case(a, b) <==> (a.len() == b.len() && forall|i: int|
            0 <= i < a.len() ==> ascii_lower_code(#[trigger] a[i]) == ascii_lower_code(b[i])),
        eq_ignore_ascii_case(a, b) == eq_ignore_ascii_case(b, a),
{
    assert forall|i: int| 0 <= i < a.len() && i < b.len() implies (char_eq_ignore_case(a[i], b[i]) <==> ascii_lower_code(
        #[trigger] a[i],
    ) == ascii_lower_code(b[i])) && char_eq_ignore_case(a[i], b[i]) == char_eq_ignore_case(b[i], a[i]) by {
        lemma_char_eq_ignore_case_is_lowercase_eq(a[i], b[i]);
    }
    if eq_ignore_ascii_case(b, a) {
        assert forall|i: int| 0 <= i < a.len() implies char_eq_ignore_case(a[i], b[i]) by {
            lemma_char_eq_ignore_case_is_lowercase_eq(a[i], b[i]);
        }
    }
}

/// A path without separators is a single segment.
pub proof fn lemma_split_no_sep(s: Seq<char>, p: Platform)
    requires
        forall|i: int| 0 <= i < s.len() ==> !is_sep(#[trigger] s[i], p),
    ensures
        split_segments(s, p) == seq![s],
    decreases s.len(),
{
    if s.len() > 0 {
        lemma_split_no_sep(s.drop_last(), p);
        assert(!is_sep(s[s.len() - 1], p));
        assert(s.drop_last().push(s.last()) =~= s);
        let rest = split_segments(s.drop_last(), p);
        assert(rest.last() == s.drop_last());
        assert(rest.update(rest.len() - 1, rest.last().push(s.last())) =~= seq![s]);
    } else {
        assert(s =~= Seq::<char>::empty());
    }
}

/// The components of a path without separators: its drive (when it has
/// one) and what follows as one component (`.` and `..` as such), nothing
/// for an empty rest.
proof fn lemma_components_no_sep(s: Seq<char>, p: Platform)
    requires
        forall|i: int| 0 <= i < s.len() ==> !is_sep(#[trigger] s[i], p),
    ensures
        ({
            let body = path_body(s, p);
            let head = if has_drive_prefix(s, p) {
                seq![CompV::Prefix(s[0])]
            } else {
                Seq::<CompV>::empty()
            };
            components(s, p) == head + (if body.len() == 0 {
                Seq::<CompV>::empty()
            } else if body == seq!['.'] {
                seq![CompV::Cur]
            } else if body == seq!['.', '.'] {
                seq![CompV::Parent]
            } else {
                seq![CompV::Normal(body)]
            })
        }),
{
    let body = path_body(s, p);
    assert forall|i: int| 0 <= i < body.len() implies !is_sep(#[trigger] body[i], p) by {
        assert(body[i] == s[i + prefix_len(s, p)]);
    }
    lemma_split_no_sep(body, p);
    let segs = split_segments(body, p);
    assert(segs.drop_last() =~= Seq::<Seq<char>>::empty());
    assert(segs.last() == body);
    assert(!has_root(s, p));
    assert(segs_comps(segs.drop_last()) =~= Seq::<CompV>::empty());
}

/// A single file name is what the standard library counts as one path
/// component other than `.` and `..`, written without a separator: so any
/// non-empty name without separators is one (a space included), except
/// `.`, `..` and a drive followed by more.
pub proof fn lemma_single_name_is_one_component(s: Seq<char>, p: Platform)
    ensures
        spec_is_single_name(s, p) <==> {
            &&& forall|i: int| 0 <= i < s.len() ==> !is_sep(#[trigger] s[i], p)
            &&& components(s, p).len() == 1
            &&& components(s, p)[0] != CompV::Cur
            &&& components(s, p)[0] != CompV::Parent
        },
{
    if forall|i: int| 0 <= i < s.len() ==> !is_sep(#[trigger] s[i], p) {
        lemma_components_no_sep(s, p);
        let body = path_body(s, p);
        if has_drive_prefix(s, p) {
            assert(body.len() == s.len() - 2);
        } else {
            assert(body == s);
        }
    }
}

/// The file name and stem of a name without separators or drive that is a
/// stem, a `.` and an extension without `.`: the name itself, and the stem.
pub proof fn lemma_stem_of_name_with_extension(stem: Seq<char>, ext: Seq<char>, p: Platform)
    requires
        stem.len() > 0,
        forall|i: int| 0 <= i < ext.len() ==> #[trigger] ext[i] != '.',
        forall|i: int| 0 <= i < stem.len() ==> !is_sep(#[trigger] stem[i], p),
        forall|i: int| 0 <= i < ext.len() ==> !is_sep(#[trigger] ext[i], p),
        !has_drive_prefix(stem + seq!['.'] + ext, p),
        stem + seq!['.'] + ext != seq!['.', '.'],
    ensures
        spec_file_name(stem + seq!['.'] + ext, p) == Some(stem + seq!['.'] + ext),
        spec_file_stem(stem + seq!['.'] + ext, p) == Some(stem),
        spec_extension(stem + seq!['.'] + ext, p) == Some(ext),
{
    let n = stem + seq!['.'] + ext;
    assert forall|i: int| 0 <= i < n.len() implies !is_sep(#[trigger] n[i], p) by {
        if i < stem.len() {
            assert(n[i] == stem[i]);
        } else if i > stem.len() {
            assert(n[i] == ext[i - stem.len() - 1]);
        }
    }
    lemma_components_no_sep(n, p);
    assert(path_body(n, p) =~= n);
    assert(n != seq!['.']) by {
        assert(n.len() >= 2);
    }
    lemma_last_index_after(stem, ext);
    assert(n.take(stem.len() as int) =~= stem);
    assert(n.skip(stem.len() + 1int) =~= ext);
}

/// The last `.` of a stem, a `.` and an extension without `.` is the one
/// after the stem.
proof fn lemma_last_index_after(stem: Seq<char>, ext: Seq<char>)
    requires
        forall|i: int| 0 <= i < ext.len() ==> #[trigger] ext[i] != '.',
    ensures
        last_index_of(stem + seq!['.'] + ext, '.') == stem.len(),
    decreases ext.len(),
{
    let n = stem + seq!['.'] + ext;
    if ext.len() == 0 {
        assert(n.last() == '.');
    } else {
        let e1 = ext.drop_last();
        assert(n.drop_last() =~= stem + seq!['.'] + e1);
        assert(n.last() == ext.last());
        assert forall|i: int| 0 <= i < e1.len() implies #[trigger] e1[i] != '.' by {
            assert(e1[i] == ext[i]);
        }
        lemma_last_index_after(stem, e1);
    }
}

/// A path has at least one segment.
pub proof fn lemma_split_nonempty(s: Seq<char>, p: Platform)
    ensures
        split_segments(s, p).len() >= 1,
    decreases s.len(),
{
    if s.len() > 0 {
        lemma_split_nonempty(s.drop_last(), p);
    }
}

/// The last index of a character is in range, holds that character, and
/// no later position does.
pub proof fn lemma_last_index_bounds(s: Seq<char>, c: char)
    ensures
        -1 <= last_index_of(s, c) < s.len(),
        last_index_of(s, c) >= 0 ==> s[last_index_of(s, c)] == c,
        forall|j: int| last_index_of(s, c) < j < s.len() ==> s[j] != c,
    decreases s.len(),
{
    if s.len() > 0 {
        lemma_last_index_bounds(s.drop_last(), c);
        assert forall|j: int| last_index_of(s, c) < j < s.len() implies s[j] != c by {
            if j < s.len() - 1 {
                assert(s[j] == s.drop_last()[j]);
            }
        }
    }
}

/// Whether `c` separates path components on `p`.
pub fn sep_char(c: char, p: Platform) -> (r: bool)
    ensures
        r == is_sep(c, p),
{
    c == '/' || (p == Platform::Windows && c == '\\')
}

/// Whether `c` is an ASCII letter.
pub fn ascii_alpha(c: char) -> (r: bool)
    ensures
        r == is_ascii_alpha(c),
{
    ('a' <= c && c <= 'z') || ('A' <= c && c <= 'Z')
}

/// Whether two characters are equal ignoring ASCII case.
pub fn chars_eq_ignore_case(a: char, b: char) -> (r: bool)
    ensures
        r == char_eq_ignore_case(a, b),
{
    if a == b {
        return true;
    }
    if !ascii_alpha(a) || !ascii_alpha(b) {
        return false;
    }
    let x = a as u32;
    let y = b as u32;
    (x >= y && x - y == 32) || (y >= x && y - x == 32)
}

/// Whether two strings are equal ignoring ASCII case.
pub fn str_eq_ignore_ascii_case(a: &str, b: &str) -> (r: bool)
    ensures
        r == eq_ignore_ascii_case(a@, b@),
{
    let ca = to_chars(a);
    let cb = to_chars(b);
    if ca.len() != cb.len() {
        return false;
    }
    let mut i: usize = 0;
    while i < ca.len()
        invariant
            ca@ == a@,
            cb@ == b@,
            ca.len() == cb.len(),
            i <= ca.len(),
            forall|j: int| 0 <= j < i ==> char_eq_ignore_case(a@[j], b@[j]),
        decreases ca.len() - i,
    {
        if !chars_eq_ignore_case(ca[i], cb[i]) {
            return false;
        }
        i = i + 1;
    }
    true
}

/// The characters of `s`.
pub fn to_chars(s: &str) -> (r: Vec<char>)
    ensures
        r@ == s@,
{
    let n = s.unicode_len();
    let mut r: Vec<char> = Vec::new();
    let mut i: usize = 0;
    while i < n
        invariant
            n == s@.len(),
            i <= n,
            r@ == s@.take(i as int),
        decreases n - i,
    {
        r.push(s.get_char(i));
        i = i + 1;
    }
    r
}

/// The component a segment `c[start..end]` of `s` stands for.
fn segment_component(s: &str, c: &Vec<char>, start: usize, end: usize) -> (r: Option<Component>)
    requires
        c@ == s@,
        start <= end <= c@.len(),
    ensures
        r matches Some(x) ==> seg_comp(s@.subrange(start as int, end as int)) == Some(x@),
        r is None ==> seg_comp(s@.subrange(start as int, end as int)) is None,
{
    let ghost seg = s@.subrange(start as int, end as int);
    let len = end - start;
    if len == 0 {
        return None;
    }
    if len == 1 && c[start] == '.' {
        assert(seg =~= seq!['.']);
        return None;
    }
    if len == 2 && c[start] == '.' && c[start + 1] == '.' {
        assert(seg =~= seq!['.', '.']);
        return Some(Component::Parent);
    }
    assert(seg[0] == c@[start as int]);
    assert(seg != seq!['.']) by {
        assert(seq!['.'].len() == 1);
        assert(seq!['.'][0] == '.');
        if len == 1 {
            assert(seg[0] != '.');
        }
    }
    assert(seg != seq!['.', '.']) by {
        if len == 2 {
            assert(seq!['.', '.'][0] == '.');
            assert(seq!['.', '.'][1] == '.');
            assert(seg[1] == c@[start + 1]);
        }
    }
    let t = s.substring_char(start, end).to_owned();
    Some(Component::Normal(t))
}

/// The components of path `s` on `p`.
pub fn components_of(s: &str, p: Platform) -> (r: Vec<Component>)
    ensures
        r@.map_values(|x: Component| x@) == components(s@, p),
{
    let c = to_chars(s);
    let n = c.len();
    let drive = p == Platform::Windows && n >= 2 && ascii_alpha(c[0]) && c[1] == ':';
    let pl: usize = if drive {
        2
    } else {
        0
    };
    let root = pl < n && sep_char(c[pl], p);
    let ghost body = path_body(s@, p);
    assert(pl == prefix_len(s@, p));
    let mut tail: Vec<Component> = Vec::new();
    let mut start: usize = pl;
    let mut i: usize = pl;
    let mut first_done = false;
    let mut first_dot = false;
    assert(body.take(0) =~= Seq::<char>::empty());
    while i < n
        invariant
            c@ == s@,
            n == c@.len(),
            pl <= start <= i <= n,
            pl == prefix_len(s@, p),
            body == s@.skip(pl as int),
            split_segments(body.take(i - pl), p).len() >= 1,
            split_segments(body.take(i - pl), p).last() == s@.subrange(start as int, i as int),
            tail@.map_values(|x: Component| x@) == segs_comps(
                split_segments(body.take(i - pl), p).drop_last(),
            ),
            !first_done ==> split_segments(body.take(i - pl), p).len() == 1,
            first_done ==> split_segments(body.take(i - pl), p).len() > 1,
            first_done ==> (first_dot == (split_segments(body.take(i - pl), p)[0] == seq!['.'])),
        decreases n - i,
    {
        let ghost segs = split_segments(body.take(i - pl), p);
        let ghost next = body.take(i + 1 - pl);
        assert(next.drop_last() =~= body.take(i - pl));
        assert(next.last() == c@[i as int]);
        if sep_char(c[i], p) {
            let sc = segment_component(s, &c, start, i);
            proof {
                let ns = split_segments(next, p);
                assert(ns == segs.push(Seq::<char>::empty()));
                assert(ns.drop_last() =~= segs);
                assert(segs =~= segs.drop_last().push(segs.last()));
            }
            if !first_done {
                first_done = true;
                first_dot = i - start == 1 && c[start] == '.';
                proof {
                    let seg = s@.subrange(start as int, i as int);
                    if i - start == 1 && c@[start as int] == '.' {
                        assert(seg =~= seq!['.']);
                    } else if seg == seq!['.'] {
                        assert(seg.len() == 1);
                        assert(seg[0] == c@[start as int]);
                    }
                }
            }
            match sc {
                Some(x) => {
                    tail.push(x);
                },
                None => {},
            }
            proof {
                let ns = split_segments(next, p);
                assert(ns[0] == segs[0]);
            }
            start = i + 1;
            assert(split_segments(next, p).last() =~= s@.subrange(start as int, (i + 1) as int));
        } else {
            proof {
                let ns = split_segments(next, p);
                assert(ns == segs.update(segs.len() - 1, segs.last().push(c@[i as int])));
                assert(ns.drop_last() =~= segs.drop_last());
                assert(ns.last() =~= s@.subrange(start as int, (i + 1) as int));
                if segs.len() > 1 {
                    assert(ns[0] == segs[0]);
                }
            }
        }
        i = i + 1;
    }
    assert(body.take(n - pl) =~= body);
    let ghost segs = split_segments(body, p);
    let sc = segment_component(s, &c, start, n);
    proof {
        assert(segs =~= segs.drop_last().push(segs.last()));
    }
    match sc {
        Some(x) => {
            tail.push(x);
        },
        None => {},
    }
    assert(tail@.map_values(|x: Component| x@) =~= segs_comps(segs));
    let cur = if first_done {
        first_dot
    } else {
        n - start == 1 && c[start] == '.'
    };
    proof {
        if !first_done {
            let seg = s@.subrange(start as int, n as int);
            assert(segs[0] == seg);
            if n - start == 1 && c@[start as int] == '.' {
                assert(seg =~= seq!['.']);
            } else if seg == seq!['.'] {
                assert(seg.len() == 1);
                assert(seg[0] == c@[start as int]);
            }
        }
    }
    let cur = cur && !root;
    let mut out: Vec<Component> = Vec::new();
    if drive {
        out.push(Component::Prefix(c[0]));
    }
    if root {
        out.push(Component::Root);
    }
    if cur {
        out.push(Component::Cur);
    }
    let ghost head = out@;
    assert(head.map_values(|x: Component| x@) =~= head_comps(s@, p));
    out.append(&mut tail);
    assert(out@.map_values(|x: Component| x@) =~= head_comps(s@, p) + segs_comps(segs));
    out
}

/// The view of an optional string.
pub open spec fn opt_view(o: Option<String>) -> Option<Seq<char>> {
    match o {
        Some(x) => Some(x@),
        None => None,
    }
}

/// Whether two strings are equal.
pub fn str_eq(a: &str, b: &str) -> (r: bool)
    ensures
        r == (a@ == b@),
{
    let ca = to_chars(a);
    let cb = to_chars(b);
    if ca.len() != cb.len() {
        return false;
    }
    let mut i: usize = 0;
    while i < ca.len()
        invariant
            ca@ == a@,
            cb@ == b@,
            ca.len() == cb.len(),
            i <= ca.len(),
            forall|j: int| 0 <= j < i ==> a@[j] == b@[j],
        decreases ca.len() - i,
    {
        if ca[i] != cb[i] {
            return false;
        }
        i = i + 1;
    }
    assert(a@ =~= b@);
    true
}

/// Whether two components are the same (drive letters ignoring case).
pub fn comp_equal(a: &Component, b: &Component) -> (r: bool)
    ensures
        r == comp_eq(a@, b@),
{
    match (a, b) {
        (Component::Prefix(x), Component::Prefix(y)) => chars_eq_ignore_case(*x, *y),
        (Component::Root, Component::Root) => true,
        (Component::Cur, Component::Cur) => true,
        (Component::Parent, Component::Parent) => true,
        (Component::Normal(x), Component::Normal(y)) => str_eq(x.as_str(), y.as_str()),
        _ => false,
    }
}

/// The final component of `s`, when it is a normal component.
pub fn file_name(s: &str, p: Platform) -> (r: Option<String>)
    ensures
        opt_view(r) == spec_file_name(s@, p),
{
    let comps = components_of(s, p);
    let ghost cv = comps@.map_values(|x: Component| x@);
    if comps.len() == 0 {
        return None;
    }
    let last = &comps[comps.len() - 1];
    assert(cv.last() == last@);
    match last {
        Component::Normal(x) => Some(x.clone()),
        _ => None,
    }
}

/// The index of the last `ch` in `c`, or `None`.
pub fn last_index(c: &Vec<char>, ch: char) -> (r: Option<usize>)
    ensures
        r matches Some(i) ==> i as int == last_index_of(c@, ch),
        r is None ==> last_index_of(c@, ch) == -1,
{
    let mut i = c.len();
    assert(c@.take(i as int) =~= c@);
    while i > 0
        invariant
            i <= c.len(),
            last_index_of(c@, ch) == last_index_of(c@.take(i as int), ch),
        decreases i,
    {
        assert(c@.take(i as int).drop_last() =~= c@.take(i - 1));
        if c[i - 1] == ch {
            return Some(i - 1);
        }
        i = i - 1;
    }
    None
}

/// The extension of file name `f`.
pub fn extension_of_name(f: &str) -> (r: Option<String>)
    ensures
        opt_view(r) == name_extension(f@),
{
    let c = to_chars(f);
    proof {
        lemma_last_index_bounds(f@, '.');
    }
    match last_index(&c, '.') {
        Some(i) => {
            if i > 0 {
                assert(i < c@.len());
                let e = f.substring_char(i + 1, c.len()).to_owned();
                assert(e@ =~= f@.skip(i + 1));
                Some(e)
            } else {
                None
            }
        },
        None => None,
    }
}

/// File name `f` without its extension.
pub fn stem_of_name(f: &str) -> (r: String)
    ensures
        r@ == name_stem(f@),
{
    let c = to_chars(f);
    proof {
        lemma_last_index_bounds(f@, '.');
    }
    match last_index(&c, '.') {
        Some(i) => {
            if i > 0 {
                let e = f.substring_char(0, i).to_owned();
                assert(e@ =~= f@.take(i as int));
                e
            } else {
                f.to_owned()
            }
        },
        None => f.to_owned(),
    }
}

/// The extension of path `s`.
pub fn extension(s: &str, p: Platform) -> (r: Option<String>)
    ensures
        opt_view(r) == spec_extension(s@, p),
{
    match file_name(s, p) {
        Some(f) => extension_of_name(f.as_str()),
        None => None,
    }
}

/// The file stem of path `s`.
pub fn file_stem(s: &str, p: Platform) -> (r: Option<String>)
    ensures
        opt_view(r) == spec_file_stem(s@, p),
{
    match file_name(s, p) {
        Some(f) => Some(stem_of_name(f.as_str())),
        None => None,
    }
}

/// Whether the components of `base` are a prefix of those of `s`.
pub fn starts_with(s: &str, base: &str, p: Platform) -> (r: bool)
    ensures
        r == spec_starts_with(s@, base@, p),
{
    let cs = components_of(s, p);
    let cb = components_of(base, p);
    let ghost vs = cs@.map_values(|x: Component| x@);
    let ghost vb = cb@.map_values(|x: Component| x@);
    if cb.len() > cs.len() {
        return false;
    }
    let mut i: usize = 0;
    while i < cb.len()
        invariant
            vs == components(s@, p),
            vb == components(base@, p),
            vs == cs@.map_values(|x: Component| x@),
            vb == cb@.map_values(|x: Component| x@),
            cb.len() <= cs.len(),
            i <= cb.len(),
            forall|j: int| 0 <= j < i ==> comp_eq(vs[j], vb[j]),
        decreases cb.len() - i,
    {
        assert(vs[i as int] == cs@[i as int]@);
        assert(vb[i as int] == cb@[i as int]@);
        if !comp_equal(&cs[i], &cb[i]) {
            return false;
        }
        i = i + 1;
    }
    true
}

/// Whether `s` has a `..` component.
pub fn has_parent_comp(s: &str, p: Platform) -> (r: bool)
    ensures
        r == spec_has_parent_comp(s@, p),
{
    let cs = components_of(s, p);
    let ghost vs = cs@.map_values(|x: Component| x@);
    let mut i: usize = 0;
    while i < cs.len()
        invariant
            vs == components(s@, p),
            vs == cs@.map_values(|x: Component| x@),
            i <= cs.len(),
            forall|j: int| 0 <= j < i ==> vs[j] != CompV::Parent,
        decreases cs.len() - i,
    {
        assert(vs[i as int] == cs@[i as int]@);
        match &cs[i] {
            Component::Parent => {
                return true;
            },
            _ => {},
        }
        i = i + 1;
    }
    false
}

/// Whether `s` is a single file name (see [`spec_is_single_name`]).
pub fn is_single_name(s: &str, p: Platform) -> (r: bool)
    ensures
        r == spec_is_single_name(s@, p),
{
    let c = to_chars(s);
    let n = c.len();
    if n == 0 {
        return false;
    }
    let mut i: usize = 0;
    while i < n
        invariant
            c@ == s@,
            n == c@.len(),
            i <= n,
            forall|j: int| 0 <= j < i ==> !is_sep(#[trigger] s@[j], p),
        decreases n - i,
    {
        if sep_char(c[i], p) {
            assert(is_sep(s@[i as int], p));
            return false;
        }
        i = i + 1;
    }
    if n == 1 && c[0] == '.' {
        assert(s@ =~= seq!['.']);
        return false;
    }
    if n == 2 && c[0] == '.' && c[1] == '.' {
        assert(s@ =~= seq!['.', '.']);
        return false;
    }
    assert(s@ != seq!['.']) by {
        if n == 1 {
            assert(seq!['.'][0] == '.');
        }
    }
    assert(s@ != seq!['.', '.']) by {
        if n == 2 {
            assert(seq!['.', '.'][0] == '.');
            assert(seq!['.', '.'][1] == '.');
        }
    }
    let drive = p == Platform::Windows && n >= 2 && ascii_alpha(c[0]) && c[1] == ':';
    !(drive && n > 2)
}

/// `s` without its trailing separators and trailing `.` segments (see
/// [`spec_trim_trailing`]).
pub fn trim_trailing(s: &str, p: Platform) -> (r: String)
    ensures
        r@ == spec_trim_trailing(s@, p),
{
    let c = to_chars(s);
    let mut k: usize = c.len();
    assert(s@.take(k as int) =~= s@);
    while k > 0 && (sep_char(c[k - 1], p) || (c[k - 1] == '.' && (k == 1 || sep_char(c[k - 2], p))))
        invariant
            c@ == s@,
            k <= c@.len(),
            spec_trim_trailing(s@, p) == spec_trim_trailing(s@.take(k as int), p),
        decreases k,
    {
        let ghost t = s@.take(k as int);
        assert(t.drop_last() =~= s@.take(k - 1));
        assert(t.last() == c@[k - 1]);
        if k >= 2 {
            assert(t[t.len() - 2] == c@[k - 2]);
        }
        k = k - 1;
    }
    proof {
        let t = s@.take(k as int);
        if k > 0 {
            assert(t.last() == c@[k - 1]);
            if k >= 2 {
                assert(t[t.len() - 2] == c@[k - 2]);
            }
        }
    }
    let r = s.substring_char(0, k).to_owned();
    assert(r@ =~= s@.take(k as int));
    r
}

/// `rel` joined onto `base`.
pub fn join(base: &str, rel: &str, p: Platform) -> (r: String)
    ensures
        r@ == spec_join(base@, rel@, p),
{
    let cr = to_chars(rel);
    let cb = to_chars(base);
    let win = p == Platform::Windows;
    let drive = win && cr.len() >= 2 && ascii_alpha(cr[0]) && cr[1] == ':';
    let unc = win && cr.len() >= 2 && sep_char(cr[0], p) && sep_char(cr[1], p);
    let n = cb.len();
    if drive || unc || n == 0 {
        return rel.to_owned();
    }
    let root = cr.len() > 0 && sep_char(cr[0], p);
    let base_drive = win && n >= 2 && ascii_alpha(cb[0]) && cb[1] == ':';
    assert(prefix_len(rel@, p) == 0);
    if root {
        let mut out = if base_drive {
            base.substring_char(0, 2).to_owned()
        } else {
            String::new()
        };
        proof {
            if base_drive {
                assert(out@ =~= base@.take(2));
            } else {
                assert(out@ =~= base@.take(0));
            }
        }
        out.append(rel);
        return out;
    }
    let last = cb[n - 1];
    let mut out = base.to_owned();
    if !sep_char(last, p) && !(base_drive && n == 2) {
        if win {
            out.append("\\");
            proof {
                reveal_strlit("\\");
            }
        } else {
            out.append("/");
            proof {
                reveal_strlit("/");
            }
        }
    }
    out.append(rel);
    proof {
        assert(base@.last() == last);
        if !is_sep(last, p) && !(has_drive_prefix(base@, p) && base@.len() == 2) {
            assert(out@ =~= base@ + seq![main_sep(p)] + rel@);
        } else {
            assert(out@ =~= base@ + rel@);
        }
    }
    out
}

/// Whether `s` is an absolute path on `p`.
pub fn is_absolute(s: &str, p: Platform) -> (r: bool)
    ensures
        r == spec_is_absolute(s@, p),
{
    let c = to_chars(s);
    let drive = p == Platform::Windows && c.len() >= 2 && ascii_alpha(c[0]) && c[1] == ':';
    let pl: usize = if drive {
        2
    } else {
        0
    };
    let root = pl < c.len() && sep_char(c[pl], p);
    let unc = p == Platform::Windows && c.len() >= 2 && sep_char(c[0], p) && sep_char(c[1], p);
    (root && (p == Platform::Unix || drive)) || unc
}

} // verus!
