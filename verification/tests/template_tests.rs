use treesync::environment::VarEnv;
use treesync::errors::SyncError;
use treesync::template::{parse_path_expr, PathPart};

fn env_of(pairs: &[(&str, &str)]) -> VarEnv {
    let mut env = VarEnv::new();
    for (k, v) in pairs {
        env.set(k.to_string(), v.to_string());
    }
    env
}

#[test]
fn plain_absolute_path_evaluates_to_itself() {
    let env = env_of(&[]);
    let e = parse_path_expr("/a/b/c").unwrap();
    assert_eq!(e.eval(&env).unwrap(), "/a/b/c");
}

#[test]
fn braced_variable_is_substituted() {
    let env = env_of(&[("key", "b")]);
    let e = parse_path_expr("/a/${key}/c").unwrap();
    assert_eq!(e.eval(&env).unwrap(), "/a/b/c");
}

#[test]
fn simple_variable_is_substituted() {
    let env = env_of(&[("key", "b")]);
    let e = parse_path_expr("/a/$key/c").unwrap();
    assert_eq!(e.eval(&env).unwrap(), "/a/b/c");
}

#[test]
fn relative_path_keeps_no_leading_separator() {
    let env = env_of(&[("TEST", "test")]);
    let e = parse_path_expr("a/${TEST}/c").unwrap();
    assert_eq!(e.eval(&env).unwrap(), "a/test/c");
}

#[test]
fn trailing_separator_is_accepted_and_ignored() {
    let env = env_of(&[]);
    let e = parse_path_expr("a/b/").unwrap();
    assert!(e.trailing_slash);
    assert_eq!(e.eval(&env).unwrap(), "a/b");
}

#[test]
fn undefined_variable_fails_with_its_name() {
    let env = env_of(&[]);
    let e = parse_path_expr("/a/${BAD_BAD_BAD}/c").unwrap();
    match e.eval(&env) {
        Err(SyncError::UndefinedVariable(name)) => assert_eq!(name, "BAD_BAD_BAD"),
        other => panic!("expected an undefined-variable failure, got {:?}", other),
    }
}

#[test]
fn undefined_variable_never_substitutes_an_empty_text() {
    // Even when every other part is defined, one missing name fails the
    // whole evaluation instead of vanishing from the result.
    let env = env_of(&[("a", "x")]);
    let e = parse_path_expr("${a}/${missing_one}").unwrap();
    assert!(e.eval(&env).is_err());
}

#[test]
fn evaluation_is_deterministic_for_a_fixed_environment() {
    let env = env_of(&[("HOME", "/home/someone")]);
    let e = parse_path_expr("${HOME}/projects").unwrap();
    let first = e.eval(&env).unwrap();
    let second = e.eval(&env).unwrap();
    assert_eq!(first, second);
    assert_eq!(first, "/home/someone/projects");
}

#[test]
fn default_base_expression_parses_to_one_variable() {
    let e = parse_path_expr("${HOME}").unwrap();
    assert!(!e.leading_slash);
    assert_eq!(e.segments.len(), 1);
    assert_eq!(e.segments[0].parts.len(), 1);
    match &e.segments[0].parts[0] {
        PathPart::Var(n) => assert_eq!(n, "HOME"),
        PathPart::Word(w) => panic!("expected a variable, got the word {:?}", w),
    }
}

#[test]
fn words_may_hold_digits_underscores_and_dashes() {
    let env = env_of(&[]);
    let e = parse_path_expr("a-1_b/c2").unwrap();
    assert_eq!(e.eval(&env).unwrap(), "a-1_b/c2");
}

#[test]
fn variable_names_may_go_on_with_word_characters() {
    let env = env_of(&[("foo-bar_2", "v")]);
    let e = parse_path_expr("${foo-bar_2}").unwrap();
    assert_eq!(e.eval(&env).unwrap(), "v");
}

#[test]
fn variable_name_must_start_with_a_letter() {
    assert!(parse_path_expr("${1foo}").is_err());
    assert!(parse_path_expr("$1foo").is_err());
}

#[test]
fn malformed_expressions_are_refused() {
    assert!(matches!(parse_path_expr("a//b"), Err(SyncError::MalformedExpression)));
    assert!(parse_path_expr("${foo").is_err());
    assert!(parse_path_expr("$").is_err());
    assert!(parse_path_expr("a$").is_err());
    assert!(parse_path_expr("a$1b").is_err());
    assert!(parse_path_expr("$.").is_err());
}

#[test]
fn literal_text_may_hold_dots_and_spaces() {
    let env = env_of(&[("HOME", "/home/someone")]);
    let e = parse_path_expr("${HOME}/.config").unwrap();
    assert_eq!(e.eval(&env).unwrap(), "/home/someone/.config");
    let e = parse_path_expr("my.files/a b").unwrap();
    assert_eq!(e.eval(&env).unwrap(), "my.files/a b");
    let e = parse_path_expr("..").unwrap();
    assert_eq!(e.eval(&env).unwrap(), "..");
}

#[test]
fn a_segment_may_mix_literal_and_variable_text() {
    let env = env_of(&[("hostname", "box"), ("a", "1"), ("b", "2")]);
    let e = parse_path_expr("backup-${hostname}").unwrap();
    assert_eq!(e.eval(&env).unwrap(), "backup-box");
    let e = parse_path_expr("${a}_${b}").unwrap();
    assert_eq!(e.eval(&env).unwrap(), "1_2");
}

#[test]
fn non_ascii_literal_text_passes_through() {
    let env = env_of(&[]);
    let e = parse_path_expr("caf\u{e9}/No.1-\u{fc}").unwrap();
    assert_eq!(e.eval(&env).unwrap(), "caf\u{e9}/No.1-\u{fc}");
}

#[test]
fn a_stray_closing_brace_is_literal_text() {
    let env = env_of(&[("foo", "x")]);
    let e = parse_path_expr("$foo}").unwrap();
    assert_eq!(e.eval(&env).unwrap(), "x}");
}

#[test]
fn empty_expression_evaluates_to_the_root() {
    let env = env_of(&[]);
    let e = parse_path_expr("").unwrap();
    assert!(e.leading_slash);
    assert_eq!(e.segments.len(), 0);
    assert_eq!(e.eval(&env).unwrap(), "/");
}
