use treesync::errors::SyncError;
use treesync::excludes::resolve_excludes;
use treesync::globs::{compile_excludes, path_passes_excludes};

fn strings(items: &[&str]) -> Vec<String> {
    items.iter().map(|s| s.to_string()).collect()
}

fn as_sorted(mut items: Vec<String>) -> Vec<String> {
    items.sort();
    items
}

#[test]
fn union_takes_both_lists() {
    let entry = strings(&["*.tmp"]);
    let general = strings(&["*.log"]);
    let r = resolve_excludes(&entry, &general);
    assert_eq!(as_sorted(r), strings(&["*.log", "*.tmp"]));
}

#[test]
fn union_is_order_independent() {
    let a = strings(&["*.log", "target"]);
    let b = strings(&["*.tmp", "*.log"]);
    let ab = as_sorted(resolve_excludes(&a, &b));
    let ba = as_sorted(resolve_excludes(&b, &a));
    assert_eq!(ab, ba);
    assert_eq!(ab, strings(&["*.log", "*.tmp", "target"]));
}

#[test]
fn union_is_idempotent() {
    let a = strings(&["*.log", "*.log", "node_modules"]);
    let r = as_sorted(resolve_excludes(&a, &a));
    assert_eq!(r, strings(&["*.log", "node_modules"]));
}

#[test]
fn duplicates_across_layers_are_coalesced() {
    let entry = strings(&["*.log", "*.tmp"]);
    let general = strings(&["*.log"]);
    let r = as_sorted(resolve_excludes(&entry, &general));
    assert_eq!(r, strings(&["*.log", "*.tmp"]));
}

#[test]
fn empty_lists_give_an_empty_set() {
    let r = resolve_excludes(&strings(&[]), &strings(&[]));
    assert!(r.is_empty());
}

#[test]
fn invalid_pattern_fails_compilation() {
    let pats = strings(&["*.log", "a{"]);
    match compile_excludes(&pats) {
        Err(SyncError::InvalidGlobPattern(p)) => assert_eq!(p, "a{"),
        other => panic!("expected an invalid-glob-pattern failure, got {:?}", other),
    }
}

#[test]
fn compiled_set_matches_full_paths() {
    let gs = compile_excludes(&strings(&["*.log"])).unwrap();
    assert!(!path_passes_excludes(&gs, "/home/someone/projects/build.log"));
    assert!(path_passes_excludes(&gs, "/home/someone/projects/main.rs"));
}

#[test]
fn empty_compiled_set_excludes_nothing() {
    let gs = compile_excludes(&strings(&[])).unwrap();
    assert!(path_passes_excludes(&gs, "/anything/at/all"));
}
