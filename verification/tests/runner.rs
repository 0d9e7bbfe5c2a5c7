use run_cli::paths::Platform;
use run_cli::runner::{exit_code, execute, parse_env_pairs, Invocation, Outcome, RunError, RunOptions};
use run_cli::toolbox::{IoFailure, IoKind};

#[test]
fn from_path_direct_for_exe() {
    let invocation = Invocation::from_path("example.exe".to_string(), Platform::Windows);
    assert_eq!(invocation, Invocation::Direct("example.exe".to_string()));
}

#[test]
fn from_path_direct_for_bat() {
    let invocation = Invocation::from_path("example.bat".to_string(), Platform::Windows);
    assert_eq!(invocation, Invocation::Direct("example.bat".to_string()));
}

#[test]
fn from_path_powershell_for_ps1() {
    let invocation = Invocation::from_path("example.ps1".to_string(), Platform::Windows);
    assert_eq!(invocation, Invocation::PowerShell("example.ps1".to_string()));
}

#[test]
fn from_path_powershell_for_ps1_case_insensitive() {
    let invocation = Invocation::from_path("example.PS1".to_string(), Platform::Windows);
    assert_eq!(invocation, Invocation::PowerShell("example.PS1".to_string()));
}

#[test]
fn from_path_ps1_is_direct_on_unix() {
    let invocation = Invocation::from_path("example.ps1".to_string(), Platform::Unix);
    assert_eq!(invocation, Invocation::Direct("example.ps1".to_string()));
    assert_eq!(invocation.path(), "example.ps1");
}

#[test]
fn command_line_direct_passes_args_verbatim() {
    let invocation = Invocation::Direct("/bin/tool".to_string());
    let args = vec!["--help".to_string(), "--".to_string(), "x y".to_string()];
    let (program, argv) = invocation.command_line(&args);
    assert_eq!(program, "/bin/tool");
    assert_eq!(argv, args);
}

#[test]
fn command_line_powershell_prefixes_script() {
    let invocation = Invocation::PowerShell("C:\\t\\s.ps1".to_string());
    let (program, argv) = invocation.command_line(&["-v".to_string()]);
    assert_eq!(program, "powershell");
    assert_eq!(
        argv,
        ["-NoProfile", "-ExecutionPolicy", "Bypass", "-File", "C:\\t\\s.ps1", "-v"]
    );
}

#[test]
fn runner_execute_passes_through_exit_code() {
    // The tool (`sh -c "exit 42"`) finished with code 42.
    let invocation = Invocation::Direct("sh".to_string());
    let code = execute(&invocation, &Outcome::Finished { code: Some(42), signal: None }).unwrap();
    assert_eq!(code, 42);
    // On Windows: `cmd.exe /C "exit 42"` finished with code 42.
    let invocation = Invocation::from_path("cmd.exe".to_string(), Platform::Windows);
    let (program, argv) = invocation.command_line(&["/C".to_string(), "exit 42".to_string()]);
    assert_eq!(program, "cmd.exe");
    assert_eq!(argv, ["/C", "exit 42"]);
    let code = execute(&invocation, &Outcome::Finished { code: Some(42), signal: None }).unwrap();
    assert_eq!(code, 42);
}

#[test]
fn execute_spawn_error_for_missing_binary() {
    let invocation = Invocation::Direct("run-cli-definitely-missing-binary-xyz".to_string());
    let outcome = Outcome::SpawnFailed(IoFailure {
        kind: IoKind::NotFound,
        text: "No such file or directory (os error 2)".to_string(),
    });
    assert!(matches!(execute(&invocation, &outcome), Err(RunError::Spawn(_, _))));
    assert_eq!(
        execute(&invocation, &outcome).unwrap_err().message(),
        "failed to spawn run-cli-definitely-missing-binary-xyz: No such file or directory (os error 2)"
    );
}

#[test]
fn exit_code_from_signal_or_default() {
    assert_eq!(exit_code(Some(3), None), 3);
    assert_eq!(exit_code(Some(0), Some(9)), 0);
    assert_eq!(exit_code(None, Some(9)), 137);
    assert_eq!(exit_code(None, None), 1);
    assert_eq!(exit_code(Some(5), Some(i32::MAX)), 5);
}

#[test]
fn parse_env_pairs_ok() {
    let parsed = parse_env_pairs(&["A=1".into(), "B=x=y".into()]).unwrap();
    assert_eq!(
        parsed,
        [
            ("A".to_string(), "1".to_string()),
            ("B".to_string(), "x=y".to_string())
        ]
    );
}

#[test]
fn parse_env_pairs_invalid() {
    assert!(matches!(
        parse_env_pairs(&["NO_EQUALS".into()]),
        Err(RunError::InvalidEnv(_))
    ));
}

#[test]
fn parse_env_pairs_reports_first_invalid_value() {
    assert_eq!(
        parse_env_pairs(&["A=1".into(), "BAD".into(), "WORSE".into()]),
        Err(RunError::InvalidEnv("BAD".to_string()))
    );
    assert_eq!(
        RunError::InvalidEnv("BAD".to_string()).message(),
        "invalid --env value 'BAD'; expected KEY=VALUE"
    );
    assert_eq!(parse_env_pairs(&["=v".into()]).unwrap(), [(String::new(), "v".to_string())]);
}

#[test]
fn run_options_default_is_empty() {
    let options = RunOptions::new();
    assert!(options.cwd.is_none());
    assert!(options.env.is_empty());
}
