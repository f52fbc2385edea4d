use treesync::config::{
    default_log_level, default_relative_to, default_timestamp_fmt, default_timezone,
    GeneralSettings,
};
use treesync::environment::{build_environment, VarEnv};
use treesync::template::parse_path_expr;

fn pairs(items: &[(&str, &str)]) -> Vec<(String, String)> {
    items.iter().map(|(k, v)| (k.to_string(), v.to_string())).collect()
}

#[test]
fn explicit_values_take_precedence_over_the_base_layer() {
    let base = pairs(&[("hostname", "from-process"), ("PATH", "/usr/bin")]);
    let explicit = pairs(&[("hostname", "injected"), ("timestamp", "2021-06-01_12:00:00")]);
    let env = build_environment(&base, &explicit);
    assert_eq!(env.lookup("hostname").unwrap(), "injected");
    assert_eq!(env.lookup("timestamp").unwrap(), "2021-06-01_12:00:00");
    assert_eq!(env.lookup("PATH").unwrap(), "/usr/bin");
    assert!(env.lookup("absent").is_none());
}

#[test]
fn later_pairs_win_within_one_layer() {
    let env = build_environment(&pairs(&[("k", "first"), ("k", "second")]), &pairs(&[]));
    assert_eq!(env.lookup("k").unwrap(), "second");
}

#[test]
fn setting_replaces_an_earlier_value() {
    let mut env = VarEnv::new();
    env.set("k".to_string(), "old".to_string());
    env.set("k".to_string(), "new".to_string());
    assert_eq!(env.lookup("k").unwrap(), "new");
}

#[test]
fn injected_variables_reach_path_expressions() {
    let env = build_environment(
        &pairs(&[]),
        &pairs(&[("timestamp", "2021-06-01_12:00:00"), ("hostname", "box")]),
    );
    let e = parse_path_expr("/backups/${hostname}/${timestamp}").unwrap();
    assert_eq!(e.eval(&env).unwrap(), "/backups/box/2021-06-01_12:00:00");
}

#[test]
fn general_defaults_are_the_documented_ones() {
    assert_eq!(default_timezone(), "UTC");
    assert_eq!(default_timestamp_fmt(), "%Y-%m-%d_%T");
    assert_eq!(default_relative_to(), "${HOME}");
    assert_eq!(default_log_level(), "INFO");
    let g = GeneralSettings::default();
    assert_eq!(g.log_level.as_deref(), Some("INFO"));
    assert!(g.exclude.is_empty());
    assert_eq!(g.relative_to, "${HOME}");
    assert_eq!(g.timezone, "UTC");
    assert_eq!(g.timestamp_fmt, "%Y-%m-%d_%T");
    assert!(g.ignore_settings.hidden.is_none());
}
