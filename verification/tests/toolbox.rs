use run_cli::paths::Platform;
use run_cli::toolbox::{
    resolve_bin_dir, AddOutcome, AddTarget, DirEntry, EntryFacts, EntryMeta, IoFailure, IoKind,
    Listing, PathFacts, RemoveAction, RemoveKind, ToolKind, Toolbox, ToolboxError,
    DEFAULT_BIN_DIR,
};

const U: Platform = Platform::Unix;
const W: Platform = Platform::Windows;

fn toolbox(dir: &str) -> Toolbox {
    Toolbox::resolve(Some(dir), None)
}

fn failure(kind: IoKind) -> IoFailure {
    IoFailure { kind, text: "os error".to_string() }
}

/// A small picture of a filesystem: regular files (with their canonical
/// form) and symlinks (with what their target is and its canonical form).
struct Fs {
    files: Vec<(&'static str, &'static str)>,
    links: Vec<(&'static str, bool, &'static str)>,
}

impl Fs {
    fn probe(&self, path: &str) -> PathFacts {
        if let Some((_, canonical)) = self.files.iter().find(|(p, _)| *p == path) {
            return PathFacts { is_file: true, is_symlink: false, canonical: Ok(canonical.to_string()) };
        }
        if let Some((_, target_is_file, canonical)) = self.links.iter().find(|(p, _, _)| *p == path) {
            return PathFacts {
                is_file: *target_is_file,
                is_symlink: true,
                canonical: Ok(canonical.to_string()),
            };
        }
        PathFacts { is_file: false, is_symlink: false, canonical: Err(failure(IoKind::NotFound)) }
    }

    fn locate(&self, tb: &Toolbox, name: &str, canonical_dir: &str, p: Platform) -> Result<String, ToolboxError> {
        let facts: Vec<PathFacts> = tb.locate_candidates(name, p).iter().map(|c| self.probe(c)).collect();
        tb.locate(name, &facts, &Ok(canonical_dir.to_string()), p)
    }
}

fn entry(name: &str, meta: Result<EntryMeta, IoFailure>) -> Result<DirEntry, IoFailure> {
    Ok(DirEntry { name: name.to_string(), path: format!("/tmp/box/{name}"), meta })
}

#[test]
fn bin_dir_priority_arg_over_env_and_default() {
    assert_eq!(resolve_bin_dir(Some("arg-dir"), Some("env-dir")), "arg-dir");
}

#[test]
fn bin_dir_priority_env_over_default() {
    assert_eq!(resolve_bin_dir(None, Some("env-dir")), "env-dir");
}

#[test]
fn bin_dir_falls_back_to_default() {
    assert_eq!(resolve_bin_dir(None, None), DEFAULT_BIN_DIR);
}

#[test]
fn bin_dir_empty_env_falls_back_to_default() {
    assert_eq!(resolve_bin_dir(None, Some("")), DEFAULT_BIN_DIR);
}

#[test]
fn list_returns_sorted_files_and_dirs() {
    let listing: Listing = Ok(vec![
        entry("b.txt", Ok(EntryMeta::File(0))),
        entry("a.exe", Ok(EntryMeta::File(0))),
        entry("z.bat", Ok(EntryMeta::File(0))),
        entry("subdir", Ok(EntryMeta::Directory)),
    ]);
    let tools = toolbox("/tmp/box").list(&listing).unwrap();
    let names: Vec<&str> = tools.iter().map(|t| t.name.as_str()).collect();
    assert_eq!(names, ["a.exe", "b.txt", "subdir", "z.bat"]);
    assert_eq!(tools[0].kind, ToolKind::File);
    assert_eq!(tools[0].size, Some(0));
    assert_eq!(tools[2].kind, ToolKind::Directory);
    assert_eq!(tools[2].size, None);
}

#[test]
fn list_returns_names() {
    let listing: Listing = Ok(vec![entry("b.exe", Ok(EntryMeta::File(1))), entry("a.exe", Ok(EntryMeta::File(2)))]);
    assert_eq!(toolbox("/tmp/box").list_names(&listing).unwrap(), ["a.exe", "b.exe"]);
}

#[test]
fn list_empty_dir() {
    let listing: Listing = Ok(Vec::new());
    assert!(toolbox("/tmp/box").list(&listing).unwrap().is_empty());
}

#[test]
fn list_returns_absolute_paths() {
    let listing: Listing = Ok(vec![entry("a.exe", Ok(EntryMeta::File(0)))]);
    let tools = toolbox("box").list(&listing).unwrap();
    assert_eq!(tools[0].path, "/tmp/box/a.exe");
}

#[test]
fn list_missing_dir() {
    let listing: Listing = Err(failure(IoKind::NotFound));
    assert!(matches!(
        toolbox("does-not-exist").list(&listing),
        Err(ToolboxError::MissingDirectory(_))
    ));
}

#[test]
fn list_non_directory() {
    let listing: Listing = Err(failure(IoKind::NotADirectory));
    assert!(matches!(
        toolbox("file.txt").list(&listing),
        Err(ToolboxError::NotADirectory(_))
    ));
}

#[test]
fn list_skips_broken_symlink() {
    let listing: Listing = Ok(vec![
        entry("dangling", Err(failure(IoKind::NotFound))),
        entry("fifo", Ok(EntryMeta::Special)),
        entry("tool.exe", Ok(EntryMeta::File(7))),
    ]);
    assert_eq!(toolbox("/tmp/box").list_names(&listing).unwrap(), ["tool.exe"]);
}

#[test]
fn list_unreadable_entry_fails_the_listing() {
    let listing: Listing = Ok(vec![
        entry("tool.exe", Ok(EntryMeta::File(7))),
        entry("locked", Err(failure(IoKind::Other))),
    ]);
    assert_eq!(
        toolbox("/tmp/box").list(&listing),
        Err(ToolboxError::ReadError("/tmp/box".to_string(), "os error".to_string()))
    );
    let unreadable: Listing = Err(failure(IoKind::Other));
    assert!(matches!(toolbox("/tmp/box").list(&unreadable), Err(ToolboxError::ReadError(_, _))));
}

#[test]
fn locate_empty_name() {
    let fs = Fs { files: vec![], links: vec![] };
    assert!(matches!(
        fs.locate(&toolbox("/tmp/box"), "", "/tmp/box", U),
        Err(ToolboxError::EmptyToolName)
    ));
}

#[test]
fn locate_missing() {
    let fs = Fs { files: vec![("/tmp/box/other.exe", "/tmp/box/other.exe")], links: vec![] };
    assert!(matches!(
        fs.locate(&toolbox("/tmp/box"), "nope", "/tmp/box", U),
        Err(ToolboxError::ToolNotFound(_, _))
    ));
}

#[test]
fn locate_explicit_extension() {
    let fs = Fs {
        files: vec![("/tmp/box/example.bat", "/tmp/box/example.bat"), ("/tmp/box/example.exe", "/tmp/box/example.exe")],
        links: vec![],
    };
    assert_eq!(fs.locate(&toolbox("/tmp/box"), "example.bat", "/tmp/box", U).unwrap(), "/tmp/box/example.bat");
}

#[test]
fn locate_absolute_path() {
    let fs = Fs { files: vec![("/tmp/box/abs.exe", "/tmp/box/abs.exe")], links: vec![] };
    assert_eq!(fs.locate(&toolbox("/tmp/box"), "/tmp/box/abs.exe", "/tmp/box", U).unwrap(), "/tmp/box/abs.exe");
}

#[test]
fn locate_subdirectory() {
    let fs = Fs { files: vec![("/tmp/box/sub/tool.exe", "/tmp/box/sub/tool.exe")], links: vec![] };
    assert_eq!(fs.locate(&toolbox("/tmp/box"), "sub/tool.exe", "/tmp/box", U).unwrap(), "/tmp/box/sub/tool.exe");
}

#[test]
fn locate_relative_path_inside_bin() {
    let fs = Fs { files: vec![("C:\\box\\sub/tool.exe", "C:\\box\\sub\\tool.exe")], links: vec![] };
    assert_eq!(fs.locate(&toolbox("C:\\box"), "sub/tool", "C:\\box", W).unwrap(), "C:\\box\\sub/tool.exe");
}

#[test]
fn locate_parent_dir_landing_outside_is_not_found() {
    let fs = Fs { files: vec![("/r/bin/../tool.exe", "/r/tool.exe")], links: vec![] };
    assert!(matches!(
        fs.locate(&toolbox("/r/bin"), "../tool.exe", "/r/bin", U),
        Err(ToolboxError::ToolNotFound(_, _))
    ));
}

#[test]
fn locate_absolute_path_outside_is_not_found() {
    let fs = Fs { files: vec![("/r/outside.exe", "/r/outside.exe")], links: vec![] };
    assert!(matches!(
        fs.locate(&toolbox("/r/bin"), "/r/outside.exe", "/r/bin", U),
        Err(ToolboxError::ToolNotFound(_, _))
    ));
}

#[test]
fn locate_parent_dir_landing_inside_is_allowed() {
    let fs = Fs { files: vec![("/r/bin/../bin/tool.exe", "/r/bin/tool.exe")], links: vec![] };
    assert_eq!(
        fs.locate(&toolbox("/r/bin"), "../bin/tool.exe", "/r/bin", U).unwrap(),
        "/r/bin/../bin/tool.exe"
    );
}

#[test]
fn locate_absolute_path_inside_is_allowed() {
    let fs = Fs { files: vec![("/r/bin/tool.exe", "/r/bin/tool.exe")], links: vec![] };
    assert_eq!(fs.locate(&toolbox("/r/bin"), "/r/bin/tool.exe", "/r/bin", U).unwrap(), "/r/bin/tool.exe");
}

#[test]
fn locate_symlink_to_outside_target_is_allowed() {
    let fs = Fs { files: vec![], links: vec![("/r/bin/linked.exe", true, "/elsewhere/real.exe")] };
    assert_eq!(fs.locate(&toolbox("/r/bin"), "linked.exe", "/r/bin", U).unwrap(), "/r/bin/linked.exe");
}

#[test]
fn locate_symlink_reached_through_parent_dir_is_not_found() {
    let fs = Fs { files: vec![], links: vec![("/r/bin/../bin/linked.exe", true, "/elsewhere/real.exe")] };
    assert!(matches!(
        fs.locate(&toolbox("/r/bin"), "../bin/linked.exe", "/r/bin", U),
        Err(ToolboxError::ToolNotFound(_, _))
    ));
}

#[test]
fn locate_bare_name_prefers_exe() {
    let fs = Fs {
        files: vec![("C:\\box\\example.bat", "C:\\box\\example.bat"), ("C:\\box\\example.exe", "C:\\box\\example.exe")],
        links: vec![],
    };
    assert_eq!(fs.locate(&toolbox("C:\\box"), "example", "C:\\box", W).unwrap(), "C:\\box\\example.exe");
}

#[test]
fn locate_bare_name_cmd_order() {
    let fs = Fs {
        files: vec![("C:\\box\\example.ps1", "C:\\box\\example.ps1"), ("C:\\box\\example.cmd", "C:\\box\\example.cmd")],
        links: vec![],
    };
    assert_eq!(fs.locate(&toolbox("C:\\box"), "example", "C:\\box", W).unwrap(), "C:\\box\\example.cmd");
}

#[test]
fn locate_bare_name_ps1() {
    let fs = Fs { files: vec![("C:\\box\\script.ps1", "C:\\box\\script.ps1")], links: vec![] };
    assert_eq!(fs.locate(&toolbox("C:\\box"), "script", "C:\\box", W).unwrap(), "C:\\box\\script.ps1");
}

#[test]
fn locate_bare_name_without_extension() {
    let fs = Fs { files: vec![("C:\\box\\plain", "C:\\box\\plain")], links: vec![] };
    assert_eq!(fs.locate(&toolbox("C:\\box"), "plain", "C:\\box", W).unwrap(), "C:\\box\\plain");
}

#[test]
fn locate_bare_name_no_extension_search() {
    let fs = Fs { files: vec![("/tmp/box/example.exe", "/tmp/box/example.exe")], links: vec![] };
    assert!(matches!(
        fs.locate(&toolbox("/tmp/box"), "example", "/tmp/box", U),
        Err(ToolboxError::ToolNotFound(_, _))
    ));
}

#[test]
fn locate_candidates_are_in_search_order() {
    assert_eq!(
        toolbox("C:\\box").locate_candidates("tool", W),
        ["C:\\box\\tool.exe", "C:\\box\\tool.bat", "C:\\box\\tool.cmd", "C:\\box\\tool.ps1", "C:\\box\\tool"]
    );
    assert_eq!(toolbox("/box").locate_candidates("tool", U), ["/box/tool"]);
    assert_eq!(toolbox("/box").locate_candidates("/abs/tool", U), ["/abs/tool"]);
}

#[test]
fn locate_missing_toolbox_directory() {
    let fs = Fs { files: vec![("/gone/tool.exe", "/gone/tool.exe")], links: vec![] };
    let tb = toolbox("/gone");
    let facts: Vec<PathFacts> = tb.locate_candidates("tool.exe", U).iter().map(|c| fs.probe(c)).collect();
    assert_eq!(
        tb.locate("tool.exe", &facts, &Err(failure(IoKind::NotFound)), U),
        Err(ToolboxError::MissingDirectory("/gone".to_string()))
    );
}

fn remove_with(
    fs: &Fs,
    tb: &Toolbox,
    name: &str,
    recursive: bool,
    entry: Option<EntryFacts>,
    p: Platform,
) -> Result<RemoveAction, ToolboxError> {
    let facts: Vec<PathFacts> = tb.locate_candidates(name, p).iter().map(|c| fs.probe(c)).collect();
    tb.remove(name, recursive, &facts, &Ok(tb.dir().to_string()), &entry, p)
}

fn dir_entry(canonical: &str) -> Option<EntryFacts> {
    Some(EntryFacts {
        facts: PathFacts { is_file: false, is_symlink: false, canonical: Ok(canonical.to_string()) },
        is_dir: true,
        target_is_dir: true,
    })
}

fn link_entry(target_is_dir: bool) -> Option<EntryFacts> {
    Some(EntryFacts {
        facts: PathFacts { is_file: !target_is_dir, is_symlink: true, canonical: Ok("/elsewhere".to_string()) },
        is_dir: false,
        target_is_dir,
    })
}

#[test]
fn remove_file() {
    let fs = Fs { files: vec![("/box/tool.exe", "/box/tool.exe")], links: vec![] };
    let action = remove_with(&fs, &toolbox("/box"), "tool.exe", false, None, U).unwrap();
    assert_eq!(action, RemoveAction { kind: RemoveKind::File, path: "/box/tool.exe".to_string() });
    assert_eq!(Toolbox::finish_remove(action, Ok(())), Ok("/box/tool.exe".to_string()));
}

#[test]
fn remove_missing() {
    let fs = Fs { files: vec![], links: vec![] };
    assert!(matches!(
        remove_with(&fs, &toolbox("/box"), "nope", false, None, U),
        Err(ToolboxError::ToolNotFound(_, _))
    ));
}

#[test]
fn remove_directory_requires_recursive() {
    let fs = Fs { files: vec![], links: vec![] };
    let tb = toolbox("/box");
    assert_eq!(
        remove_with(&fs, &tb, "sub", false, dir_entry("/box/sub"), U),
        Err(ToolboxError::RemoveDirectory("/box/sub".to_string()))
    );
    assert_eq!(
        remove_with(&fs, &tb, "sub", true, dir_entry("/box/sub"), U),
        Ok(RemoveAction { kind: RemoveKind::Tree, path: "/box/sub".to_string() })
    );
}

#[test]
fn remove_parent_dir_landing_outside_is_not_found() {
    let fs = Fs { files: vec![], links: vec![] };
    assert!(matches!(
        remove_with(&fs, &toolbox("/r/bin"), "../other", true, dir_entry("/r/other"), U),
        Err(ToolboxError::ToolNotFound(_, _))
    ));
}

#[test]
fn remove_absolute_outside_path_is_not_found() {
    let fs = Fs { files: vec![], links: vec![] };
    assert!(matches!(
        remove_with(&fs, &toolbox("/r/bin"), "/r/other", true, dir_entry("/r/other"), U),
        Err(ToolboxError::ToolNotFound(_, _))
    ));
}

#[test]
fn remove_file_symlink_to_outside_removes_link() {
    let fs = Fs { files: vec![], links: vec![("/box/link.exe", true, "/elsewhere/real.exe")] };
    assert_eq!(
        remove_with(&fs, &toolbox("/box"), "link.exe", false, link_entry(false), U),
        Ok(RemoveAction { kind: RemoveKind::File, path: "/box/link.exe".to_string() })
    );
}

#[test]
fn remove_dir_symlink_to_outside_removes_link() {
    let fs = Fs { files: vec![], links: vec![("/box/linkdir", false, "/elsewhere/dir")] };
    let tb = toolbox("/box");
    assert_eq!(
        remove_with(&fs, &tb, "linkdir", false, link_entry(true), U),
        Err(ToolboxError::RemoveDirectory("/box/linkdir".to_string()))
    );
    assert_eq!(
        remove_with(&fs, &tb, "linkdir", true, link_entry(true), U),
        Ok(RemoveAction { kind: RemoveKind::Link, path: "/box/linkdir".to_string() })
    );
}

#[test]
fn remove_broken_file_symlink_without_recursive() {
    let fs = Fs { files: vec![], links: vec![("/box/broken", false, "/gone")] };
    let broken = Some(EntryFacts {
        facts: PathFacts { is_file: false, is_symlink: true, canonical: Err(failure(IoKind::NotFound)) },
        is_dir: false,
        target_is_dir: false,
    });
    assert_eq!(
        remove_with(&fs, &toolbox("/box"), "broken", false, broken, U),
        Ok(RemoveAction { kind: RemoveKind::Link, path: "/box/broken".to_string() })
    );
}

#[test]
fn remove_absolute_outside_symlink_is_not_found() {
    let fs = Fs { files: vec![], links: vec![] };
    assert!(matches!(
        remove_with(&fs, &toolbox("/r/bin"), "/r/link", true, link_entry(true), U),
        Err(ToolboxError::ToolNotFound(_, _))
    ));
}

#[test]
fn remove_parent_dir_symlink_outside_is_not_found() {
    let fs = Fs { files: vec![], links: vec![] };
    assert!(matches!(
        remove_with(&fs, &toolbox("/r/bin"), "../bin/link", true, link_entry(true), U),
        Err(ToolboxError::ToolNotFound(_, _))
    ));
}

#[test]
fn remove_failure_is_reported_with_its_path() {
    let action = RemoveAction { kind: RemoveKind::Tree, path: "/box/sub".to_string() };
    assert_eq!(
        Toolbox::finish_remove(action, Err(failure(IoKind::Other))),
        Err(ToolboxError::RemoveError("/box/sub".to_string(), "os error".to_string()))
    );
}

#[test]
fn add_default_name_creates_bin_dir() {
    let tb = toolbox("/r/bin");
    let target = tb.add("tool.exe", None, true, Ok("/r/tool.exe".to_string()), U).unwrap();
    assert_eq!(
        target,
        AddTarget { source: "/r/tool.exe".to_string(), dest: "/r/bin/tool.exe".to_string() }
    );
    assert_eq!(
        tb.finish_add(target, false, &Ok(()), &Ok(()), &Ok(())),
        Ok((AddOutcome::Linked, "/r/bin/tool.exe".to_string()))
    );
}

#[test]
fn toolbox_add_custom_name() {
    let tb = toolbox("/r/bin");
    let target = tb.add("/r/tool.exe", Some("renamed.exe"), true, Ok("/r/tool.exe".to_string()), U).unwrap();
    assert_eq!(target.dest, "/r/bin/renamed.exe");
    assert_eq!(
        tb.finish_add(target, false, &Ok(()), &Err(failure(IoKind::Other)), &Ok(())),
        Ok((AddOutcome::Copied, "/r/bin/renamed.exe".to_string()))
    );
}

#[test]
fn add_missing_source() {
    let tb = toolbox("/r/bin");
    assert!(matches!(
        tb.add("missing.exe", None, false, Ok("/r/missing.exe".to_string()), U),
        Err(ToolboxError::AddSourceMissing(_))
    ));
}

#[test]
fn add_invalid_name() {
    let tb = toolbox("/r/bin");
    for bad in ["a/b.exe", "..", ".", ""] {
        assert!(matches!(
            tb.add("/r/tool.exe", Some(bad), true, Ok("/r/tool.exe".to_string()), U),
            Err(ToolboxError::InvalidToolName(_))
        ));
    }
}

#[test]
fn add_already_exists() {
    let tb = toolbox("/r/bin");
    let target = tb.add("/r/tool.exe", None, true, Ok("/r/tool.exe".to_string()), U).unwrap();
    assert_eq!(
        tb.finish_add(target, true, &Ok(()), &Ok(()), &Ok(())),
        Err(ToolboxError::AlreadyExists("/r/bin/tool.exe".to_string()))
    );
}

#[test]
fn add_copy_and_mkdir_failures() {
    let tb = toolbox("/r/bin");
    let target = AddTarget { source: "/r/tool.exe".to_string(), dest: "/r/bin/tool.exe".to_string() };
    assert_eq!(
        tb.finish_add(target.clone(), false, &Err(failure(IoKind::Other)), &Ok(()), &Ok(())),
        Err(ToolboxError::CreateBinDirError("/r/bin".to_string(), "os error".to_string()))
    );
    assert_eq!(
        tb.finish_add(target, false, &Ok(()), &Err(failure(IoKind::Other)), &Err(failure(IoKind::Other))),
        Err(ToolboxError::CopyError(
            "/r/tool.exe".to_string(),
            "/r/bin/tool.exe".to_string(),
            "os error".to_string()
        ))
    );
}

#[test]
fn toolbox_error_messages() {
    assert_eq!(
        ToolboxError::MissingDirectory("bin".to_string()).message(),
        "bin directory not found: bin"
    );
    assert_eq!(
        ToolboxError::RemoveDirectory("/box/sub".to_string()).message(),
        "'/box/sub' is a directory; use --recursive to remove it"
    );
}

#[test]
fn locate_explicit_extension_missing() {
    let fs = Fs { files: vec![("C:\\box\\tool", "C:\\box\\tool")], links: vec![] };
    assert!(matches!(
        fs.locate(&toolbox("C:\\box"), "tool.exe", "C:\\box", W),
        Err(ToolboxError::ToolNotFound(_, _))
    ));
}

#[test]
fn locate_bare_name_in_subdirectory() {
    let fs = Fs { files: vec![("C:\\box\\sub/tool", "C:\\box\\sub\\tool")], links: vec![] };
    assert_eq!(fs.locate(&toolbox("C:\\box"), "sub/tool", "C:\\box", W).unwrap(), "C:\\box\\sub/tool");
}

#[test]
fn remove_file_by_exact_name() {
    let fs = Fs {
        files: vec![("C:\\box\\tool.exe", "C:\\box\\tool.exe"), ("C:\\box\\other.bat", "C:\\box\\other.bat")],
        links: vec![],
    };
    assert_eq!(
        remove_with(&fs, &toolbox("C:\\box"), "tool.exe", false, None, W),
        Ok(RemoveAction { kind: RemoveKind::File, path: "C:\\box\\tool.exe".to_string() })
    );
}

#[test]
fn add_directory() {
    let tb = toolbox("/r/bin");
    let target = tb.add("/r/scripts", Some("scripts"), true, Ok("/r/scripts".to_string()), U).unwrap();
    assert_eq!(target.dest, "/r/bin/scripts");
    assert_eq!(
        tb.finish_add(target, false, &Ok(()), &Ok(()), &Ok(())),
        Ok((AddOutcome::Linked, "/r/bin/scripts".to_string()))
    );
}

#[test]
fn locate_bare_name_with_trailing_separator_tries_extensions() {
    assert_eq!(
        toolbox("C:\\box").locate_candidates("sub/", W),
        ["C:\\box\\sub.exe", "C:\\box\\sub.bat", "C:\\box\\sub.cmd", "C:\\box\\sub.ps1", "C:\\box\\sub/"]
    );
    let fs = Fs { files: vec![("C:\\box\\sub.exe", "C:\\box\\sub.exe")], links: vec![] };
    assert_eq!(fs.locate(&toolbox("C:\\box"), "sub/", "C:\\box", W).unwrap(), "C:\\box\\sub.exe");
    assert_eq!(
        toolbox("C:\\box").locate_candidates("a/./", W)[0],
        "C:\\box\\a.exe"
    );
}

#[test]
fn unc_and_verbatim_names_are_absolute() {
    assert_eq!(toolbox("C:\\box").locate_candidates("\\\\server\\share\\tool", W), ["\\\\server\\share\\tool"]);
    assert_eq!(toolbox("C:\\box").locate_candidates("\\\\?\\C:\\tool", W), ["\\\\?\\C:\\tool"]);
    assert!(run_cli::paths::is_absolute("//server/share/x", W));
    assert!(run_cli::paths::is_absolute("//server/share/x", U));
    assert!(!run_cli::paths::is_absolute("\\x", W));
}

#[test]
fn list_names_are_the_names_of_the_listing() {
    let listing: Listing = Ok(vec![
        entry("z.exe", Ok(EntryMeta::File(1))),
        entry("a", Ok(EntryMeta::Directory)),
        entry("m.bat", Ok(EntryMeta::File(2))),
    ]);
    let tb = toolbox("/tmp/box");
    let tools = tb.list(&listing).unwrap();
    let names: Vec<String> = tools.iter().map(|t| t.name.clone()).collect();
    assert_eq!(tb.list_names(&listing).unwrap(), names);
    assert!(tools.iter().all(|t| t.size.is_some() == (t.kind == ToolKind::File)));
}

#[test]
fn rooted_name_keeps_the_toolbox_drive() {
    assert_eq!(toolbox("C:\\tb").locate_candidates("\\x.exe", W), ["C:\\x.exe"]);
    assert_eq!(run_cli::paths::join("C:\\tb", "\\x.exe", W), "C:\\x.exe");
    assert_eq!(run_cli::paths::join("C:", "x", W), "C:x");
    assert_eq!(run_cli::paths::join("tb", "\\x", W), "\\x");
    assert_eq!(run_cli::paths::join("C:\\tb", "D:\\x", W), "D:\\x");
    assert_eq!(run_cli::paths::join("/tb", "/x", U), "/x");
}
