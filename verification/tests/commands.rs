use run_cli::commands::add::{self, AddFacts};
use run_cli::commands::list::{self, ListOutput};
use run_cli::commands::remove;
use run_cli::commands::run;
use run_cli::commands::{
    check_registered, locate_tool, map_tool_error, map_tool_not_found, resolve_absolute,
    resolve_from_facts, resolve_tool, tool_not_found_error, tool_not_registered_error, Context,
    Environment, Error, NotFoundFacts, ResolveFacts, ToolSource,
};
use run_cli::config::{Config, ConfigError, ConfigTool};
use run_cli::paths::Platform;
use run_cli::runner::{Invocation, RunError};
use run_cli::toolbox::{
    DirEntry, EntryMeta, IoFailure, IoKind, Listing, PathFacts, Toolbox, ToolboxError,
};

const U: Platform = Platform::Unix;
const W: Platform = Platform::Windows;

fn failure(kind: IoKind) -> IoFailure {
    IoFailure { kind, text: "os error".to_string() }
}

fn config_with(entries: &[(&str, &str)]) -> Config {
    Config {
        tools: entries
            .iter()
            .map(|(name, path)| ConfigTool { name: name.to_string(), path: path.to_string() })
            .collect(),
    }
}

fn listing_of(names: &[&str]) -> Listing {
    Ok(names
        .iter()
        .map(|n| {
            Ok(DirEntry { name: n.to_string(), path: format!("/box/{n}"), meta: Ok(EntryMeta::File(1)) })
        })
        .collect())
}

fn toolbox(dir: &str) -> Toolbox {
    Toolbox::resolve(Some(dir), None)
}

fn facts(dir_exists: bool, dir_is_dir: bool, config: Option<Config>, listing: Listing) -> NotFoundFacts {
    NotFoundFacts { dir_exists, dir_is_dir, config_is_file: config.is_some(), config, listing }
}

fn rich_message(e: Error) -> String {
    match e {
        Error::RichToolNotFound { message } => message,
        other => panic!("expected a rich error, got {other:?}"),
    }
}

#[test]
fn context_resolves_directories_by_priority() {
    let env = Environment {
        bin_dir: Some("env-bin".to_string()),
        config: Some(String::new()),
        default_config: "/home/me/.run-cli/config.toml".to_string(),
    };
    let context = Context::new(None, None, &env);
    assert_eq!(context.toolbox.dir(), "env-bin");
    assert_eq!(context.config_path, "/home/me/.run-cli/config.toml");
    let context = Context::new(Some("flag-bin"), Some("flag.toml"), &env);
    assert_eq!(context.toolbox.dir(), "flag-bin");
    assert_eq!(context.config_path, "flag.toml");
}

#[test]
fn map_tool_not_found_missing_dir_is_missing_directory() {
    let f = facts(false, false, None, Err(failure(IoKind::NotFound)));
    assert!(matches!(
        map_tool_not_found(&toolbox("definitely-missing-dir"), "x", &f, U),
        Error::Toolbox(ToolboxError::MissingDirectory(_))
    ));
}

#[test]
fn map_tool_not_found_file_is_not_a_directory() {
    let f = facts(true, false, None, Err(failure(IoKind::NotADirectory)));
    assert!(matches!(
        map_tool_not_found(&toolbox("not-a-dir"), "x", &f, U),
        Error::Toolbox(ToolboxError::NotADirectory(_))
    ));
}

#[test]
fn map_tool_not_found_existing_dir_returns_rich_error() {
    let f = facts(true, true, None, listing_of(&[]));
    assert!(matches!(
        map_tool_not_found(&toolbox("/box"), "x", &f, U),
        Error::RichToolNotFound { .. }
    ));
}

#[test]
fn map_tool_not_found_with_config_file_ignores_missing_toolbox() {
    let f = facts(false, false, Some(config_with(&[("echo", "/usr/bin/echo")])), Err(failure(IoKind::NotFound)));
    let message = rich_message(map_tool_not_found(&toolbox("/gone"), "echoe", &f, U));
    assert_eq!(
        message,
        "tool 'echoe' not found in /gone\ndid you mean 'echo'?\navailable tools:\n  - echo"
    );
}

#[test]
fn tool_not_found_error_merges_config_and_bin_names() {
    let config = config_with(&[("echo", "/usr/bin/echo")]);
    let message = rich_message(tool_not_found_error(
        &toolbox("/box"),
        "echoe",
        Some(&config),
        &listing_of(&["other.exe", "echo"]),
        U,
    ));
    assert!(message.contains("did you mean"), "message: {message}");
    assert!(message.contains("echo"), "message: {message}");
    assert!(message.contains("other.exe"), "message: {message}");
    assert_eq!(
        message,
        "tool 'echoe' not found in /box\ndid you mean 'echo'?\navailable tools:\n  - echo\n  - other.exe"
    );
}

#[test]
fn tool_not_found_error_without_any_list() {
    let message = rich_message(tool_not_found_error(
        &toolbox("/box"),
        "x",
        None,
        &Err(failure(IoKind::Other)),
        U,
    ));
    assert_eq!(message, "tool 'x' not found in /box");
}

#[test]
fn resolve_tool_uses_config_first() {
    let config = config_with(&[("tool.exe", "/d/registered.exe")]);
    assert_eq!(
        resolve_tool(&config, "tool.exe", U),
        ToolSource::Registered(ConfigTool { name: "tool.exe".to_string(), path: "/d/registered.exe".to_string() })
    );
    // Bare-name completion is a Windows feature; elsewhere the bare query
    // resolves in neither the config nor the toolbox.
    assert!(matches!(resolve_tool(&config, "tool", W), ToolSource::Registered(_)));
    assert_eq!(resolve_tool(&config, "tool", U), ToolSource::Toolbox);
    let tb = toolbox("/d");
    let fs_facts = vec![PathFacts { is_file: false, is_symlink: false, canonical: Err(failure(IoKind::NotFound)) }];
    let nf = facts(true, true, Some(config.clone()), listing_of(&["tool.exe"]));
    assert!(matches!(
        locate_tool(&tb, "tool", &fs_facts, &Ok("/d".to_string()), &nf, U),
        Err(Error::RichToolNotFound { .. })
    ));
}

#[test]
fn resolve_tool_falls_back_to_toolbox() {
    let config = Config::new();
    assert_eq!(resolve_tool(&config, "tool.exe", U), ToolSource::Toolbox);
    let tb = toolbox("/d");
    let fs_facts = vec![PathFacts { is_file: true, is_symlink: false, canonical: Ok("/d/tool.exe".to_string()) }];
    let nf = facts(true, true, Some(config), listing_of(&["tool.exe"]));
    let located = locate_tool(&tb, "tool.exe", &fs_facts, &Ok("/d".to_string()), &nf, U).unwrap();
    assert_eq!(located, "/d/tool.exe");
    assert_eq!(resolve_absolute(located, Ok("/d/tool.exe".to_string())), Ok("/d/tool.exe".to_string()));
}

#[test]
fn resolve_tool_registered_missing_path_is_error() {
    let config = config_with(&[("tool.exe", "/d/gone.exe")]);
    for (query, p) in [("tool", W), ("tool.exe", U)] {
        let ToolSource::Registered(tool) = resolve_tool(&config, query, p) else {
            panic!("expected a registration");
        };
        assert!(matches!(
            check_registered(&tool, Ok("/d/gone.exe".to_string()), false, false),
            Err(Error::Config(ConfigError::RegisteredPathMissing { .. }))
        ));
    }
}

#[test]
fn resolve_tool_registered_path_not_file_is_error() {
    let config = config_with(&[("sub", "/d")]);
    let ToolSource::Registered(tool) = resolve_tool(&config, "sub", U) else {
        panic!("expected a registration");
    };
    assert!(matches!(
        check_registered(&tool, Ok("/d".to_string()), true, false),
        Err(Error::Config(ConfigError::RegisteredPathNotFile { .. }))
    ));
    assert_eq!(check_registered(&tool, Ok("/d".to_string()), true, true), Ok("/d".to_string()));
}

#[test]
fn resolve_absolute_failure_names_the_tool_path() {
    assert_eq!(
        resolve_absolute("rel/tool".to_string(), Err(failure(IoKind::Other))),
        Err(Error::Toolbox(ToolboxError::AbsolutePathError("rel/tool".to_string(), "os error".to_string())))
    );
}

#[test]
fn tool_not_registered_error_suggests_config_names() {
    let config = config_with(&[("echo", "/usr/bin/echo")]);
    let message = rich_message(tool_not_registered_error("/c/config.toml", "echoe", Some(&config), U));
    assert!(message.contains("did you mean"), "message: {message}");
    assert!(message.contains("echo"), "message: {message}");
    assert_eq!(
        message,
        "tool 'echoe' is not registered in /c/config.toml\ndid you mean 'echo'?\nregistered tools:\n  - echo"
    );
    let unread = rich_message(tool_not_registered_error("/c/config.toml", "echoe", None, U));
    assert_eq!(unread, "tool 'echoe' is not registered in /c/config.toml");
}

#[test]
fn map_tool_error_passes_other_errors_on() {
    let nf = facts(true, true, None, listing_of(&[]));
    assert_eq!(
        map_tool_error(&toolbox("/box"), "", ToolboxError::EmptyToolName, &nf, U),
        Error::Toolbox(ToolboxError::EmptyToolName)
    );
}

#[test]
fn run_missing_tool_exits_127_with_suggestion_and_list() {
    let nf = facts(true, true, None, listing_of(&["echo.bat", "exit42.bat"]));
    let err = map_tool_error(
        &toolbox("/box"),
        "echoe",
        ToolboxError::ToolNotFound("/box".to_string(), "echoe".to_string()),
        &nf,
        U,
    );
    assert_eq!(err.code(), 127);
    let message = err.message();
    assert!(message.contains("echoe"));
    assert!(message.contains("did you mean"), "message: {message}");
    assert!(message.contains("available tools"));
    assert!(message.contains("echo.bat"));
}

#[test]
fn run_missing_tool_suggests_config_names() {
    let config = config_with(&[("echo.bat", "/d/echo.bat")]);
    let nf = facts(false, false, Some(config), Err(failure(IoKind::NotFound)));
    let err = map_tool_not_found(&toolbox("/missing-bin"), "echoe", &nf, U);
    assert_eq!(err.code(), 127);
    let message = err.message();
    assert!(message.contains("did you mean"), "message: {message}");
    assert!(message.contains("echo.bat"), "message: {message}");
}

#[test]
fn run_missing_tool_in_empty_toolbox() {
    let nf = NotFoundFacts {
        dir_exists: true,
        dir_is_dir: true,
        config_is_file: false,
        config: Some(Config::new()),
        listing: listing_of(&[]),
    };
    let err = map_tool_not_found(&toolbox("/box"), "definitely-missing", &nf, U);
    assert_eq!(err.code(), 127);
    assert_eq!(err.message(), "tool 'definitely-missing' not found in /box");
}

#[test]
fn run_missing_bin_dir_is_runtime_error_not_127() {
    let nf = NotFoundFacts {
        dir_exists: false,
        dir_is_dir: false,
        config_is_file: false,
        config: Some(Config::new()),
        listing: Err(failure(IoKind::NotFound)),
    };
    let err = map_tool_not_found(&toolbox("definitely-missing-run-dir"), "any-tool", &nf, U);
    assert_eq!(err.code(), 1);
    assert!(err.message().contains("bin directory not found"));
}

#[test]
fn run_outside_path_exits_127() {
    let tb = toolbox("/r/bin");
    let fs_facts = vec![PathFacts { is_file: true, is_symlink: false, canonical: Ok("/r/outside.bat".to_string()) }];
    let nf = facts(true, true, None, listing_of(&[]));
    let err = locate_tool(&tb, "../outside.bat", &fs_facts, &Ok("/r/bin".to_string()), &nf, U).unwrap_err();
    assert_eq!(err.code(), 127);
}

fn resolve_facts(loaded: Result<Config, ConfigError>, reg: Option<(&str, bool, bool)>, cands: Vec<PathFacts>, located: Option<&str>) -> ResolveFacts {
    let unread = || Err(failure(IoKind::Other));
    let (registered_absolute, registered_exists, registered_is_file) = match reg {
        Some((a, e, f)) => (Ok(a.to_string()), e, f),
        None => (unread(), false, false),
    };
    ResolveFacts {
        loaded,
        registered_absolute,
        registered_exists,
        registered_is_file,
        candidates: cands,
        canonical_dir: Ok("/box".to_string()),
        located_absolute: match located {
            Some(l) => Ok(l.to_string()),
            None => unread(),
        },
        not_found: facts(true, true, None, listing_of(&["tool.exe"])),
    }
}

fn file_fact(canonical: &str) -> PathFacts {
    PathFacts { is_file: true, is_symlink: false, canonical: Ok(canonical.to_string()) }
}

#[test]
fn run_prepares_invocation_and_options() {
    let args = run::Args {
        tool: "script.ps1".to_string(),
        cwd: Some("work".to_string()),
        env: vec!["A=1".to_string(), "B=x=y".to_string()],
        args: vec!["-v".to_string()],
    };
    let config = config_with(&[("script.ps1", "C:\\box\\script.ps1")]);
    let f = resolve_facts(Ok(config.clone()), Some(("C:\\box\\script.ps1", true, true)), vec![], None);
    let (inv, cmd) = run::run(&args, &toolbox("/box"), f, W).unwrap();
    assert_eq!(inv, Invocation::PowerShell("C:\\box\\script.ps1".to_string()));
    assert_eq!(cmd.program, "powershell");
    assert_eq!(cmd.args, ["-NoProfile", "-ExecutionPolicy", "Bypass", "-File", "C:\\box\\script.ps1", "-v"]);
    assert_eq!(cmd.cwd, Some("work".to_string()));
    assert_eq!(cmd.env, [("A".to_string(), "1".to_string()), ("B".to_string(), "x=y".to_string())]);
    let bad = run::Args { env: vec!["NOPE".to_string()], ..args.clone() };
    let f = resolve_facts(Ok(config), Some(("C:\\box\\script.ps1", true, true)), vec![], None);
    assert_eq!(
        run::run(&bad, &toolbox("/box"), f, W).err(),
        Some(Error::Run(RunError::InvalidEnv("NOPE".to_string())))
    );
}

#[test]
fn run_executes_the_registered_file_not_the_toolbox_entry() {
    // The toolbox holds tool.exe too, but the registration wins.
    let args = run::Args { tool: "tool.exe".to_string(), cwd: None, env: vec![], args: vec!["x".to_string()] };
    let config = config_with(&[("tool.exe", "/elsewhere/tool.exe")]);
    let f = resolve_facts(
        Ok(config),
        Some(("/elsewhere/tool.exe", true, true)),
        vec![file_fact("/box/tool.exe")],
        Some("/box/tool.exe"),
    );
    let (inv, cmd) = run::run(&args, &toolbox("/box"), f, U).unwrap();
    assert_eq!(inv, Invocation::Direct("/elsewhere/tool.exe".to_string()));
    assert_eq!(cmd.program, "/elsewhere/tool.exe");
    assert_eq!(cmd.args, ["x"]);
    assert_eq!(cmd.cwd, None);
}

#[test]
fn resolve_from_facts_follows_config_first() {
    let tb = toolbox("/box");
    // A config that fails to load is the error.
    let parse = ConfigError::ParseError("c.toml".to_string(), "bad".to_string());
    let f = resolve_facts(Err(parse.clone()), None, vec![file_fact("/box/tool.exe")], Some("/box/tool.exe"));
    assert_eq!(resolve_from_facts(&tb, "tool.exe", f, U), Err(Error::Config(parse)));
    // A broken registration never falls back to the toolbox.
    let config = config_with(&[("tool.exe", "/gone/tool.exe")]);
    let f = resolve_facts(Ok(config), Some(("/gone/tool.exe", false, false)), vec![file_fact("/box/tool.exe")], Some("/box/tool.exe"));
    assert!(matches!(
        resolve_from_facts(&tb, "tool.exe", f, U),
        Err(Error::Config(ConfigError::RegisteredPathMissing { .. }))
    ));
    // An unregistered name is looked up in the toolbox and made absolute.
    let f = resolve_facts(Ok(Config::new()), None, vec![file_fact("/box/tool.exe")], Some("/abs/box/tool.exe"));
    assert_eq!(resolve_from_facts(&tb, "tool.exe", f, U), Ok("/abs/box/tool.exe".to_string()));
    // A failure to make the located path absolute names that path.
    let f = resolve_facts(Ok(Config::new()), None, vec![file_fact("/box/tool.exe")], None);
    assert!(matches!(
        resolve_from_facts(&tb, "tool.exe", f, U),
        Err(Error::Toolbox(ToolboxError::AbsolutePathError(p, _))) if p == "/box/tool.exe"
    ));
    // An unresolvable name gets the rich message.
    let f = resolve_facts(
        Ok(Config::new()),
        None,
        vec![PathFacts { is_file: false, is_symlink: false, canonical: Err(failure(IoKind::NotFound)) }],
        None,
    );
    let err = resolve_from_facts(&tb, "tool.ex", f, U).unwrap_err();
    assert_eq!(err.code(), 127);
    assert!(err.message().contains("did you mean 'tool.exe'"));
}

#[test]
fn command_line_carries_cwd_and_env() {
    let options = run_cli::runner::RunOptions {
        cwd: Some("/work".to_string()),
        env: vec![("K".to_string(), "V".to_string())],
    };
    let cmd = run_cli::runner::command(&Invocation::Direct("/bin/t".to_string()), &["a".to_string()], &options);
    assert_eq!(cmd.program, "/bin/t");
    assert_eq!(cmd.args, ["a"]);
    assert_eq!(cmd.cwd, Some("/work".to_string()));
    assert_eq!(cmd.env, [("K".to_string(), "V".to_string())]);
}

#[test]
fn list_shadowing_uses_exact_names_of_listed_registrations() {
    // A registration whose path is gone does not shadow; neither does a
    // name that only matches ignoring case.
    let config = config_with(&[("echo.bat", "/gone/echo.bat"), ("EXIT42.BAT", "/d/exit42.bat")]);
    let out = list::execute(
        &list::Args { json: true },
        Ok(config),
        &[None, Some(EntryMeta::File(1))],
        &toolbox("/box"),
        "/c.toml",
        &bin_listing(),
    );
    let Ok(ListOutput::Json(entries)) = out else {
        panic!("expected json");
    };
    assert!(entries.iter().all(|e| !e.shadowed));
}

#[test]
fn list_json_is_sorted_by_name_across_sources() {
    let config = config_with(&[("zeta.bat", "/d/zeta.bat"), ("exit42.bat", "/d/exit42.bat")]);
    let out = list::execute(
        &list::Args { json: true },
        Ok(config),
        &[Some(EntryMeta::File(1)), Some(EntryMeta::File(2))],
        &toolbox("/box"),
        "/c.toml",
        &bin_listing(),
    );
    let Ok(ListOutput::Json(entries)) = out else {
        panic!("expected json");
    };
    let order: Vec<(&str, &str)> = entries.iter().map(|e| (e.name.as_str(), e.origin.as_str())).collect();
    assert_eq!(
        order,
        [
            ("echo.bat", "bin"),
            ("exit42.bat", "config"),
            ("exit42.bat", "bin"),
            ("scripts", "bin"),
            ("zeta.bat", "config")
        ]
    );
}

fn add_args(path: &str, name: Option<&str>, force: bool) -> add::Args {
    add::Args { path: path.to_string(), name: name.map(|n| n.to_string()), force }
}

fn add_facts(exists: bool, absolute: &str, is_file: bool, config: Config) -> AddFacts {
    AddFacts { exists, absolute: Ok(absolute.to_string()), is_file, config: Ok(config) }
}

#[test]
fn add_then_run_tool() {
    let plan = add::execute(
        &add_args("new-tool.bat", None, false),
        add_facts(true, "/d/new-tool.bat", true, Config::new()),
        U,
    )
    .unwrap();
    assert_eq!(plan.name, "new-tool.bat");
    assert_eq!(plan.path, "/d/new-tool.bat");
    assert!(plan.message.contains("added"));
    assert_eq!(plan.message, "added new-tool.bat -> /d/new-tool.bat");
    assert!(matches!(resolve_tool(&plan.config, "new-tool.bat", U), ToolSource::Registered(_)));
}

#[test]
fn cli_add_custom_name() {
    let plan = add::execute(
        &add_args("/d/tool.bat", Some("renamed.bat"), false),
        add_facts(true, "/d/tool.bat", true, Config::new()),
        U,
    )
    .unwrap();
    assert_eq!(plan.config.tools, [ConfigTool { name: "renamed.bat".to_string(), path: "/d/tool.bat".to_string() }]);
}

#[test]
fn add_missing_source_fails() {
    let err = add::execute(
        &add_args("definitely-missing-source", None, false),
        add_facts(false, "/d/definitely-missing-source", false, Config::new()),
        U,
    )
    .err()
    .unwrap();
    assert_eq!(err.code(), 1);
    assert!(err.message().contains("source not found"));
}

#[test]
fn add_invalid_name_fails() {
    let err = add::execute(
        &add_args("/d/tool.bat", Some("a/b.exe"), false),
        add_facts(true, "/d/tool.bat", true, Config::new()),
        U,
    )
    .err()
    .unwrap();
    assert_eq!(err.code(), 1);
    assert!(err.message().contains("invalid tool name"));
}

#[test]
fn add_directory_source_fails() {
    let err = add::execute(&add_args("/d/sub", None, false), add_facts(true, "/d/sub", false, Config::new()), U)
        .err()
        .unwrap();
    assert_eq!(err, Error::Config(ConfigError::SourceNotFile("/d/sub".to_string())));
}

#[test]
fn add_duplicate_fails_then_force_overwrites() {
    let config = config_with(&[("dup.bat", "/d/dup.bat")]);
    let dup = add::execute(
        &add_args("/d/other.bat", Some("dup.bat"), false),
        add_facts(true, "/d/other.bat", true, config.clone()),
        U,
    )
    .err()
    .unwrap();
    assert_eq!(dup.code(), 1);
    assert!(dup.message().contains("already registered"));
    let forced = add::execute(
        &add_args("/d/other.bat", Some("dup.bat"), true),
        add_facts(true, "/d/other.bat", true, config),
        U,
    )
    .unwrap();
    assert_eq!(forced.config.tools, [ConfigTool { name: "dup.bat".to_string(), path: "/d/other.bat".to_string() }]);
}

#[test]
fn add_reports_unloadable_config_after_name_checks() {
    let facts = AddFacts {
        exists: true,
        absolute: Ok("/d/tool.bat".to_string()),
        is_file: true,
        config: Err(ConfigError::ParseError("c.toml".to_string(), "bad".to_string())),
    };
    assert_eq!(
        add::execute(&add_args("tool.bat", None, false), facts, U).err(),
        Some(Error::Config(ConfigError::ParseError("c.toml".to_string(), "bad".to_string())))
    );
}

#[test]
fn remove_registered_tool() {
    let config = config_with(&[("plain.bat", "/d/plain.bat")]);
    let plan = remove::execute(&remove::Args { tool: "plain.bat".to_string() }, Ok(config), "/c.toml", U).unwrap();
    assert!(plan.message.contains("removed"));
    assert_eq!(plan.message, "removed plain.bat");
    assert_eq!(resolve_tool(&plan.config, "plain.bat", U), ToolSource::Toolbox);
}

#[test]
fn remove_not_registered_exits_127() {
    let config = config_with(&[("echo.bat", "/d/echo.bat")]);
    let err = remove::execute(&remove::Args { tool: "echoe".to_string() }, Ok(config), "/c.toml", U)
        .err()
        .unwrap();
    assert_eq!(err.code(), 127);
    let message = err.message();
    assert!(message.contains("not registered"), "message: {message}");
    assert!(message.contains("did you mean"), "message: {message}");
    assert!(message.contains("echo.bat"), "message: {message}");
}

#[test]
fn remove_does_not_delete_bin_tool() {
    let err = remove::execute(&remove::Args { tool: "echo".to_string() }, Ok(Config::new()), "/c.toml", W)
        .err()
        .unwrap();
    assert_eq!(err.code(), 127);
}

#[test]
fn remove_resolves_like_run() {
    let config = config_with(&[("program.bat", "/d/program.bat"), ("program.exe", "/d/program.exe")]);
    let plan = remove::execute(&remove::Args { tool: "program".to_string() }, Ok(config), "/c.toml", W).unwrap();
    assert_eq!(plan.message, "removed program.exe");
    assert_eq!(plan.config.tools, [ConfigTool { name: "program.bat".to_string(), path: "/d/program.bat".to_string() }]);
}

fn bin_listing() -> Listing {
    Ok(vec![
        Ok(DirEntry { name: "echo.bat".to_string(), path: "/box/echo.bat".to_string(), meta: Ok(EntryMeta::File(20)) }),
        Ok(DirEntry { name: "scripts".to_string(), path: "/box/scripts".to_string(), meta: Ok(EntryMeta::Directory) }),
        Ok(DirEntry { name: "exit42.bat".to_string(), path: "/box/exit42.bat".to_string(), meta: Ok(EntryMeta::File(9)) }),
    ])
}

fn list_lines(config: Config, metas: &[Option<EntryMeta>], listing: &Listing) -> Vec<String> {
    match list::execute(&list::Args { json: false }, Ok(config), metas, &toolbox("/box"), "/c/config.toml", listing) {
        Ok(ListOutput::Lines(lines)) => lines,
        _ => panic!("expected lines"),
    }
}

#[test]
fn list_shows_tools_sorted_with_dirs() {
    let lines = list_lines(Config::new(), &[], &bin_listing());
    assert_eq!(
        lines,
        ["tools in /box (3):", "  - echo.bat", "  - exit42.bat", "  - scripts/"]
    );
}

#[test]
fn list_empty_toolbox() {
    let lines = list_lines(Config::new(), &[], &Ok(Vec::new()));
    assert_eq!(lines, ["no tools found in /box"]);
}

#[test]
fn list_json_empty_toolbox_is_empty_array() {
    let out = list::execute(&list::Args { json: true }, Ok(Config::new()), &[], &toolbox("/box"), "/c.toml", &Ok(Vec::new()));
    assert!(matches!(out, Ok(ListOutput::Json(v)) if v.is_empty()));
}

#[test]
fn list_groups_entries_by_source() {
    let config = config_with(&[("from-config.bat", "/d/from-config.bat")]);
    let lines = list_lines(config, &[Some(EntryMeta::File(5))], &bin_listing());
    assert_eq!(lines[0], "tools in /c/config.toml (1):");
    assert_eq!(lines[1], "  - from-config.bat");
    assert_eq!(lines[2], "tools in /box (3):");
    assert_eq!(lines.len(), 2 + 1 + 3);
}

#[test]
fn list_config_shadows_bin_same_name() {
    let config = config_with(&[("echo.bat", "/d/shadow.bat")]);
    let out = list::execute(
        &list::Args { json: true },
        Ok(config),
        &[Some(EntryMeta::File(5))],
        &toolbox("/box"),
        "/c.toml",
        &bin_listing());
    let Ok(ListOutput::Json(entries)) = out else {
        panic!("expected json");
    };
    let matches: Vec<_> = entries.iter().filter(|e| e.name == "echo.bat").collect();
    assert_eq!(matches.len(), 2);
    assert_eq!(matches[0].origin, "config");
    assert!(!matches[0].shadowed);
    assert_eq!(matches[1].origin, "bin");
    assert!(matches[1].shadowed);
    let scripts = entries.iter().find(|e| e.name == "scripts").unwrap();
    assert_eq!(scripts.kind, "directory");
    assert_eq!(scripts.size, None);
    assert!(!scripts.shadowed);
}

#[test]
fn list_marks_shadowed_bin_entry_human_readable() {
    let config = config_with(&[("echo.bat", "/d/shadow.bat")]);
    let lines = list_lines(config, &[Some(EntryMeta::File(5))], &bin_listing());
    assert_eq!(lines[1], "  - echo.bat");
    assert!(lines.contains(&"  - echo.bat (shadowed)".to_string()));
}

#[test]
fn list_skips_config_entry_with_missing_path() {
    let config = config_with(&[("gone.bat", "/d/gone.bat"), ("alive.bat", "/d/alive.bat")]);
    let out = list::execute(
        &list::Args { json: true },
        Ok(config),
        &[None, Some(EntryMeta::File(3))],
        &toolbox("/box"),
        "/c.toml",
        &Ok(Vec::new()));
    let Ok(ListOutput::Json(entries)) = out else {
        panic!("expected json");
    };
    let names: Vec<&str> = entries.iter().map(|e| e.name.as_str()).collect();
    assert_eq!(names, ["alive.bat"]);
}

#[test]
fn list_missing_bin_dir_shows_config_entries_only() {
    let config = config_with(&[("only-config.bat", "/d/only-config.bat")]);
    let out = list::execute(
        &list::Args { json: true },
        Ok(config),
        &[Some(EntryMeta::File(3))],
        &toolbox("/missing"),
        "/c.toml",
        &Err(failure(IoKind::NotFound)));
    let Ok(ListOutput::Json(entries)) = out else {
        panic!("expected json");
    };
    assert_eq!(entries.len(), 1);
    assert_eq!(entries[0].name, "only-config.bat");
    assert_eq!(entries[0].origin, "config");
    assert_eq!(entries[0].size, Some(3));
}

#[test]
fn list_unreadable_toolbox_fails() {
    let out = list::execute(
        &list::Args { json: false },
        Ok(Config::new()),
        &[],
        &toolbox("/box"),
        "/c.toml",
        &Err(failure(IoKind::Other)));
    assert!(matches!(out, Err(Error::Toolbox(ToolboxError::ReadError(_, _)))));
}

#[test]
fn corrupt_config_is_an_error() {
    let parse = ConfigError::ParseError("c.toml".to_string(), "expected `]`".to_string());
    let out = list::execute(&list::Args { json: false }, Err(parse.clone()), &[], &toolbox("/box"), "c.toml", &Ok(Vec::new()));
    let err = match out {
        Err(e) => e,
        Ok(_) => panic!("expected an error"),
    };
    assert_eq!(err.code(), 1);
    assert!(err.message().contains("parse"));
}

#[test]
fn error_codes() {
    assert_eq!(Error::Toolbox(ToolboxError::ToolNotFound("b".to_string(), "x".to_string())).code(), 127);
    assert_eq!(Error::RichToolNotFound { message: "m".to_string() }.code(), 127);
    assert_eq!(Error::Toolbox(ToolboxError::EmptyToolName).code(), 1);
    assert_eq!(Error::Serialize("boom".to_string()).code(), 1);
    assert_eq!(Error::Serialize("boom".to_string()).message(), "boom");
}

#[test]
fn run_tool_passes_through_exit_code() {
    let invocation = Invocation::from_path("/box/exit42".to_string(), U);
    let code = run_cli::runner::execute(
        &invocation,
        &run_cli::runner::Outcome::Finished { code: Some(42), signal: None },
    );
    assert_eq!(code, Ok(42));
}

#[test]
fn which_missing_tool_exits_127() {
    let tb = toolbox("/box");
    let fs_facts = vec![PathFacts { is_file: false, is_symlink: false, canonical: Err(failure(IoKind::NotFound)) }];
    let nf = facts(true, true, None, listing_of(&["echo.bat"]));
    let err = locate_tool(&tb, "nope", &fs_facts, &Ok("/box".to_string()), &nf, U).unwrap_err();
    assert_eq!(err.code(), 127);
}

#[test]
fn which_missing_bin_dir_is_runtime_error_not_127() {
    let tb = toolbox("definitely-missing-which-dir");
    let fs_facts = vec![PathFacts { is_file: false, is_symlink: false, canonical: Err(failure(IoKind::NotFound)) }];
    let nf = NotFoundFacts {
        dir_exists: false,
        dir_is_dir: false,
        config_is_file: false,
        config: Some(Config::new()),
        listing: Err(failure(IoKind::NotFound)),
    };
    let err = locate_tool(&tb, "any-tool", &fs_facts, &Err(failure(IoKind::NotFound)), &nf, U).unwrap_err();
    assert_eq!(err.code(), 1);
    assert!(err.message().contains("bin directory not found"));
}

#[test]
fn config_priority_over_bin() {
    // The toolbox also holds `tool.bat`, but the registration wins.
    let config = config_with(&[("tool.bat", "/elsewhere/tool.bat")]);
    let ToolSource::Registered(tool) = resolve_tool(&config, "tool.bat", U) else {
        panic!("expected the registration");
    };
    assert_eq!(tool.path, "/elsewhere/tool.bat");
}

#[test]
fn run_registered_missing_path_does_not_fallback_to_bin() {
    let config = config_with(&[("tool.bat", "/gone/tool.bat")]);
    let ToolSource::Registered(tool) = resolve_tool(&config, "tool.bat", U) else {
        panic!("expected the registration");
    };
    let err = check_registered(&tool, Ok("/gone/tool.bat".to_string()), false, false).unwrap_err();
    assert_eq!(err.code(), 1);
    assert_eq!(err.message(), "registered tool 'tool.bat' path not found: /gone/tool.bat");
}

#[test]
fn run_registered_path_is_directory_exits_1() {
    let config = config_with(&[("tool.bat", "/d/dir")]);
    let ToolSource::Registered(tool) = resolve_tool(&config, "tool.bat", U) else {
        panic!("expected the registration");
    };
    let err = check_registered(&tool, Ok("/d/dir".to_string()), true, false).unwrap_err();
    assert_eq!(err.code(), 1);
}

#[test]
fn run_bare_name_matches_config_extension() {
    let config = config_with(&[("program.bat", "C:\\d\\program.bat")]);
    for query in ["program", "program.bat"] {
        let ToolSource::Registered(tool) = resolve_tool(&config, query, W) else {
            panic!("expected the registration for {query}");
        };
        assert_eq!(tool.name, "program.bat");
    }
}

#[test]
fn which_bare_name_prefers_exe_in_config() {
    let config = config_with(&[("program.bat", "C:\\d\\program.bat"), ("program.exe", "C:\\d\\program.exe")]);
    let ToolSource::Registered(bare) = resolve_tool(&config, "program", W) else {
        panic!("expected a registration");
    };
    assert_eq!(bare.path, "C:\\d\\program.exe", "the .exe candidate wins for a bare query");
    let ToolSource::Registered(exact) = resolve_tool(&config, "program.bat", W) else {
        panic!("expected a registration");
    };
    assert_eq!(exact.path, "C:\\d\\program.bat", "an exact name wins over completion");
}

#[test]
fn list_json_is_valid_and_contains_entries() {
    let out = list::execute(&list::Args { json: true }, Ok(Config::new()), &[], &toolbox("/box"), "/c.toml", &bin_listing());
    let Ok(ListOutput::Json(entries)) = out else {
        panic!("expected json");
    };
    let names: Vec<&str> = entries.iter().map(|e| e.name.as_str()).collect();
    assert!(names.contains(&"echo.bat"));
    assert!(names.contains(&"scripts"));
    assert!(entries.iter().any(|e| e.kind == "directory"));
    assert!(entries.iter().any(|e| e.kind == "file"));
    assert!(entries.iter().all(|e| e.origin == "bin"));
}

#[test]
fn list_bin_only_has_single_group() {
    let lines = list_lines(Config::new(), &[], &bin_listing());
    assert!(lines[0].contains("/box"));
    assert!(!lines.iter().any(|l| l.contains("/c/config.toml")));
    assert_eq!(lines.len(), 1 + 3);
}

#[test]
fn list_merges_config_and_bin_with_origins() {
    let config = config_with(&[("from-config.bat", "/d/from-config.bat")]);
    let out = list::execute(
        &list::Args { json: true },
        Ok(config),
        &[Some(EntryMeta::File(5))],
        &toolbox("/box"),
        "/c.toml",
        &bin_listing());
    let Ok(ListOutput::Json(entries)) = out else {
        panic!("expected json");
    };
    let config_entry = entries.iter().find(|e| e.name == "from-config.bat").unwrap();
    assert_eq!(config_entry.origin, "config");
    let bin_entry = entries.iter().find(|e| e.name == "echo.bat").unwrap();
    assert_eq!(bin_entry.origin, "bin");
}
