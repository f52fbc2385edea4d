use treesync::config::{resolve_entry, GeneralSettings, SyncSettings};
use treesync::errors::SyncError;
use treesync::excludes::resolve_excludes;
use treesync::globs::compile_excludes;
use treesync::policy::{resolve_ignore_policy, IgnoreSettings};
use treesync::walker::select_files;

fn strings(items: &[&str]) -> Vec<String> {
    items.iter().map(|s| s.to_string()).collect()
}

fn default_policy() -> treesync::policy::IgnorePolicy {
    resolve_ignore_policy(&IgnoreSettings::default(), &IgnoreSettings::default())
}

#[test]
fn walker_yields_ordinary_files() {
    let tmp = tempfile::TempDir::new().unwrap();
    let root = tempfile::Builder::new().prefix("tree").tempdir_in(tmp.path()).unwrap();
    let keep = tempfile::Builder::new()
        .prefix("data")
        .suffix(".txt")
        .tempfile_in(root.path())
        .unwrap();
    let gs = compile_excludes(&strings(&[])).unwrap();
    let files = select_files(root.path().to_str().unwrap(), &default_policy(), &gs).unwrap();
    let kept_path = keep.path().to_str().unwrap().to_string();
    assert!(files.contains(&kept_path));
    assert!(files.contains(&root.path().to_str().unwrap().to_string()));
}

#[test]
fn walker_never_yields_an_excluded_path() {
    let tmp = tempfile::TempDir::new().unwrap();
    let root = tempfile::Builder::new().prefix("tree").tempdir_in(tmp.path()).unwrap();
    let keep = tempfile::Builder::new()
        .prefix("data")
        .suffix(".txt")
        .tempfile_in(root.path())
        .unwrap();
    let logged = tempfile::Builder::new()
        .prefix("build")
        .suffix(".log")
        .tempfile_in(root.path())
        .unwrap();
    let scratch = tempfile::Builder::new()
        .prefix("scratch")
        .suffix(".tmp")
        .tempfile_in(root.path())
        .unwrap();
    // The effective set for one entry excluding *.tmp under general
    // settings excluding *.log.
    let mut patterns = resolve_excludes(&strings(&["*.tmp"]), &strings(&["*.log"]));
    patterns.sort();
    assert_eq!(patterns, strings(&["*.log", "*.tmp"]));
    let gs = compile_excludes(&patterns).unwrap();
    let files = select_files(root.path().to_str().unwrap(), &default_policy(), &gs).unwrap();
    assert!(files.contains(&keep.path().to_str().unwrap().to_string()));
    assert!(!files.contains(&logged.path().to_str().unwrap().to_string()));
    assert!(!files.contains(&scratch.path().to_str().unwrap().to_string()));
}

#[test]
fn hidden_files_are_skipped_by_default_and_kept_when_toggled() {
    let tmp = tempfile::TempDir::new().unwrap();
    let root = tempfile::Builder::new().prefix("tree").tempdir_in(tmp.path()).unwrap();
    let hidden = tempfile::Builder::new()
        .prefix(".secret")
        .suffix(".txt")
        .tempfile_in(root.path())
        .unwrap();
    let gs = compile_excludes(&strings(&[])).unwrap();
    let hidden_path = hidden.path().to_str().unwrap().to_string();

    let files = select_files(root.path().to_str().unwrap(), &default_policy(), &gs).unwrap();
    assert!(!files.contains(&hidden_path));

    let entry = IgnoreSettings { hidden: Some(false), ..IgnoreSettings::default() };
    let policy = resolve_ignore_policy(&entry, &IgnoreSettings::default());
    let files = select_files(root.path().to_str().unwrap(), &policy, &gs).unwrap();
    assert!(files.contains(&hidden_path));
}

#[test]
fn exclude_glob_matches_the_full_path_not_the_basename() {
    let tmp = tempfile::TempDir::new().unwrap();
    let root = tempfile::Builder::new().prefix("tree").tempdir_in(tmp.path()).unwrap();
    let inner = tempfile::Builder::new().prefix("node_modules").tempdir_in(root.path()).unwrap();
    let buried = tempfile::Builder::new()
        .prefix("dep")
        .suffix(".js")
        .tempfile_in(inner.path())
        .unwrap();
    let gs = compile_excludes(&strings(&["**/node_modules*/**"])).unwrap();
    let files = select_files(root.path().to_str().unwrap(), &default_policy(), &gs).unwrap();
    assert!(!files.contains(&buried.path().to_str().unwrap().to_string()));
    assert!(files.contains(&root.path().to_str().unwrap().to_string()));
}

#[test]
fn unreadable_root_aborts_the_walk() {
    let tmp = tempfile::TempDir::new().unwrap();
    let gone = tmp.path().join("not-there");
    let gs = compile_excludes(&strings(&[])).unwrap();
    let r = select_files(gone.to_str().unwrap(), &default_policy(), &gs);
    assert!(matches!(r, Err(SyncError::WalkFailed(_))));
}

#[test]
fn resolve_entry_combines_policy_and_excludes() {
    let entry = SyncSettings {
        path: "projects".to_string(),
        exclude: strings(&["*.tmp"]),
        ignore_settings: IgnoreSettings { hidden: Some(false), ..IgnoreSettings::default() },
    };
    let general = GeneralSettings { exclude: strings(&["*.log"]), ..GeneralSettings::default() };
    let (policy, gs) = resolve_entry(&entry, &general).unwrap();
    assert!(!policy.hidden);
    assert!(policy.parents);
    assert!(treesync::globs::path_passes_excludes(&gs, "keep.txt"));
    assert!(!treesync::globs::path_passes_excludes(&gs, "drop.log"));
    assert!(!treesync::globs::path_passes_excludes(&gs, "drop.tmp"));
}

#[test]
fn filter_keeps_exactly_the_non_matching_paths_in_order() {
    let gs = compile_excludes(&strings(&["*.log"])).unwrap();
    let input = strings(&["/a/keep.txt", "/a/drop.log", "/a/also.txt"]);
    let kept = treesync::walker::filter_paths(input, &gs);
    assert_eq!(kept, strings(&["/a/keep.txt", "/a/also.txt"]));
}

#[test]
fn bad_general_pattern_fails_entry_resolution() {
    let entry = SyncSettings {
        path: "projects".to_string(),
        exclude: strings(&[]),
        ignore_settings: IgnoreSettings::default(),
    };
    let general = GeneralSettings { exclude: strings(&["a{"]), ..GeneralSettings::default() };
    assert!(matches!(resolve_entry(&entry, &general), Err(SyncError::InvalidGlobPattern(_))));
}

#[test]
fn bad_entry_pattern_fails_entry_resolution() {
    let entry = SyncSettings {
        path: "projects".to_string(),
        exclude: strings(&["a{"]),
        ignore_settings: IgnoreSettings::default(),
    };
    let general = GeneralSettings::default();
    assert!(matches!(resolve_entry(&entry, &general), Err(SyncError::InvalidGlobPattern(_))));
}
