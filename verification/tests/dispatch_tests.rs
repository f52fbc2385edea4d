use treesync::dispatch::{
    format_destination, format_remote, interpret_exit_code, plan_invocation, resolve_source,
    resolve_source_path,
};
use treesync::environment::VarEnv;
use treesync::errors::SyncError;

#[test]
fn remote_is_user_at_host() {
    let r = format_remote(&"someone".to_string(), &"192.168.1.9".to_string());
    assert_eq!(r, "someone@192.168.1.9");
}

#[test]
fn destination_always_ends_in_one_appended_separator() {
    let remote = "someone@192.168.1.9".to_string();
    let d = format_destination(&remote, &"/backups/nightly".to_string());
    assert_eq!(d, "someone@192.168.1.9:/backups/nightly/");
    assert!(d.ends_with('/'));
    assert!(!d.ends_with("//"));
}

#[test]
fn destination_never_doubles_the_separator() {
    let remote = "u@h".to_string();
    assert_eq!(
        format_destination(&remote, &"/backups/nightly/".to_string()),
        "u@h:/backups/nightly/",
    );
    assert_eq!(format_destination(&remote, &"p//".to_string()), "u@h:p/");
    assert_eq!(format_destination(&remote, &"/".to_string()), "u@h:/");
    assert_eq!(format_destination(&remote, &"".to_string()), "u@h:/");
}

#[test]
fn relative_source_joins_the_base() {
    let r = resolve_source_path(&"projects".to_string(), &"/home/someone".to_string());
    assert_eq!(r, "/home/someone/projects");
}

#[test]
fn base_with_trailing_separator_gets_no_second_one() {
    let r = resolve_source_path(&"projects".to_string(), &"/home/someone/".to_string());
    assert_eq!(r, "/home/someone/projects");
}

#[test]
fn absolute_source_stands_alone() {
    let r = resolve_source_path(&"/var/data".to_string(), &"/home/someone".to_string());
    assert_eq!(r, "/var/data");
}

#[test]
fn relative_source_resolves_through_the_base_expression() {
    let mut env = VarEnv::new();
    env.set("HOME".to_string(), "/home/someone".to_string());
    let r = resolve_source(&"projects".to_string(), &"${HOME}".to_string(), &env).unwrap();
    assert_eq!(r, "/home/someone/projects");
}

#[test]
fn absolute_source_never_touches_the_base_expression() {
    // The base expression references an undefined variable, yet an
    // absolute source resolves: the base is not evaluated for it.
    let env = VarEnv::new();
    let r = resolve_source(&"/var/data".to_string(), &"${HOME}".to_string(), &env).unwrap();
    assert_eq!(r, "/var/data");
}

#[test]
fn relative_source_fails_on_an_undefined_base_variable() {
    let env = VarEnv::new();
    let r = resolve_source(&"projects".to_string(), &"${HOME}".to_string(), &env);
    match r {
        Err(SyncError::UndefinedVariable(name)) => assert_eq!(name, "HOME"),
        other => panic!("expected an undefined-variable failure, got {:?}", other),
    }
}

#[test]
fn planned_arguments_are_exact() {
    let p = plan_invocation(false, false, &"/src/a.txt".to_string(), &"u@h:/d/".to_string());
    assert_eq!(p.args, vec!["--archive", "--verbose", "--compress", "/src/a.txt", "u@h:/d/"]);
    assert!(p.execute);
}

#[test]
fn tool_dry_run_adds_the_flag_but_still_executes() {
    let p = plan_invocation(false, true, &"/src/a.txt".to_string(), &"u@h:/d/".to_string());
    assert_eq!(
        p.args,
        vec!["--archive", "--verbose", "--compress", "--dry-run", "/src/a.txt", "u@h:/d/"],
    );
    assert!(p.execute);
}

#[test]
fn program_dry_run_never_executes() {
    let p = plan_invocation(true, false, &"/src/a.txt".to_string(), &"u@h:/d/".to_string());
    assert!(!p.execute);
    assert_eq!(p.args, vec!["--archive", "--verbose", "--compress", "/src/a.txt", "u@h:/d/"]);
}

#[test]
fn tool_exit_code_is_reported_as_is() {
    assert_eq!(interpret_exit_code(Some(23)).unwrap(), 23);
    assert_eq!(interpret_exit_code(Some(0)).unwrap(), 0);
}

#[test]
fn missing_exit_code_is_fatal() {
    assert!(matches!(interpret_exit_code(None), Err(SyncError::MissingExitCode)));
}

#[test]
fn error_messages_name_their_cause() {
    let e = SyncError::UndefinedVariable("HOME".to_string());
    assert_eq!(e.message(), "undefined variable: HOME");
    let g = SyncError::InvalidGlobPattern("a{".to_string());
    assert_eq!(g.message(), "invalid glob pattern: a{");
    let m = SyncError::MissingExitCode;
    assert_eq!(m.message(), "unable to get the exit code of the transfer process");
}
