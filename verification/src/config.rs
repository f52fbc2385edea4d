use vstd::prelude::*;
use vstd::string::StringExecFns;
use crate::errors::SyncError;
use crate::excludes::pattern_set;
use crate::excludes::resolve_excludes;
use crate::excludes::spec_resolve_excludes;
use crate::globs::compile_excludes;
use crate::globs::glob_compile_ok;
use crate::globs::glob_set_spec;
use crate::policy::IgnorePolicy;
use crate::policy::IgnoreSettings;
use crate::policy::resolve_ignore_policy;
use crate::policy::resolve_toggle;

verus! {

/// Process-wide defaults: global exclude patterns, the base for relative
/// source paths, the timestamp's timezone and format, the log level, and
/// the general layer of the ignore toggles.
#[derive(Debug)]
pub struct GeneralSettings {
    pub log_level: Option<String>,
    /// Glob patterns excluded for every sync entry.
    pub exclude: Vec<String>,
    /// Path expression the relative source paths are relative to.
    pub relative_to: String,
    pub timezone: String,
    pub timestamp_fmt: String,
    pub ignore_settings: IgnoreSettings,
}

/// One configured source tree: its path (absolute, or relative to the
/// general base), its own exclude patterns, and its own layer of the
/// ignore toggles.
#[derive(Debug)]
pub struct SyncSettings {
    pub path: String,
    pub exclude: Vec<String>,
    pub ignore_settings: IgnoreSettings,
}

/// The destination: user, host address and a path expression for the
/// destination directory.
#[derive(Debug)]
pub struct RemoteSettings {
    pub user: String,
    pub host: String,
    pub destination: String,
}

/// A whole run's configuration: optional general settings, the ordered
/// sync entries, and exactly one remote target. Loaded once at startup
/// and read-only thereafter.
#[derive(Debug)]
pub struct Config {
    pub general: Option<GeneralSettings>,
    pub sync: Vec<SyncSettings>,
    pub remote: RemoteSettings,
}

/// The default timezone of the timestamp variable.
pub fn default_timezone() -> (r: String)
    ensures
        r@ == "UTC"@,
{
    String::from_str("UTC")
}

/// The default format of the timestamp variable.
pub fn default_timestamp_fmt() -> (r: String)
    ensures
        r@ == "%Y-%m-%d_%T"@,
{
    String::from_str("%Y-%m-%d_%T")
}

/// The default base path expression for relative source paths.
pub fn default_relative_to() -> (r: String)
    ensures
        r@ == "${HOME}"@,
{
    String::from_str("${HOME}")
}

/// The default log level of the general settings.
pub fn default_log_level() -> (r: String)
    ensures
        r@ == "INFO"@,
{
    String::from_str("INFO")
}

impl Default for GeneralSettings {
    /// The settings a configuration without a general table gets: no
    /// global excludes, every ignore toggle unset, and the defaults for
    /// the base path, timezone, timestamp format and log level.
    fn default() -> (r: Self)
        ensures
            r.log_level matches Some(l) && l@ == "INFO"@,
            r.exclude@.len() == 0,
            r.relative_to@ == "${HOME}"@,
            r.timezone@ == "UTC"@,
            r.timestamp_fmt@ == "%Y-%m-%d_%T"@,
            r.ignore_settings.hidden is None,
            r.ignore_settings.parents is None,
            r.ignore_settings.ignore is None,
            r.ignore_settings.git_global is None,
            r.ignore_settings.git_ignore is None,
            r.ignore_settings.git_exclude is None,
            r.ignore_settings.same_file_system is None,
    {
        GeneralSettings {
            log_level: Some(default_log_level()),
            exclude: Vec::new(),
            relative_to: default_relative_to(),
            timezone: default_timezone(),
            timestamp_fmt: default_timestamp_fmt(),
            ignore_settings: IgnoreSettings::default(),
        }
    }
}

/// Resolves one sync entry against the general settings: every ignore
/// toggle through the three-tier fallback, and the exclude patterns as
/// the compiled union of the entry's and the general lists. It succeeds
/// exactly when the resolved pattern list compiles, and fails only with
/// the invalid-glob-pattern error.
pub fn resolve_entry(entry: &SyncSettings, general: &GeneralSettings) -> (r: Result<
    (IgnorePolicy, globset::GlobSet),
    SyncError,
>)
    ensures
        r matches Ok((pol, gs)) ==> {
            &&& pol.hidden == resolve_toggle(
                entry.ignore_settings.hidden,
                general.ignore_settings.hidden,
            )
            &&& pol.parents == resolve_toggle(
                entry.ignore_settings.parents,
                general.ignore_settings.parents,
            )
            &&& pol.ignore == resolve_toggle(
                entry.ignore_settings.ignore,
                general.ignore_settings.ignore,
            )
            &&& pol.git_global == resolve_toggle(
                entry.ignore_settings.git_global,
                general.ignore_settings.git_global,
            )
            &&& pol.git_ignore == resolve_toggle(
                entry.ignore_settings.git_ignore,
                general.ignore_settings.git_ignore,
            )
            &&& pol.git_exclude == resolve_toggle(
                entry.ignore_settings.git_exclude,
                general.ignore_settings.git_exclude,
            )
            &&& pol.same_file_system == resolve_toggle(
                entry.ignore_settings.same_file_system,
                general.ignore_settings.same_file_system,
            )
            &&& glob_set_spec(gs) == pattern_set(entry.exclude@).union(
                pattern_set(general.exclude@),
            )
        },
        r is Ok <==> glob_compile_ok(spec_resolve_excludes(entry.exclude@, general.exclude@)),
        r matches Err(e) ==> e matches SyncError::InvalidGlobPattern(_),
{
    let policy = resolve_ignore_policy(&entry.ignore_settings, &general.ignore_settings);
    let patterns = resolve_excludes(&entry.exclude, &general.exclude);
    match compile_excludes(&patterns) {
        Ok(gs) => Ok((policy, gs)),
        Err(e) => Err(e),
    }
}

} // verus!
