use vstd::prelude::*;

verus! {

/// The seven ignore toggles that steer file discovery, each one optionally
/// set at a given configuration layer. A toggle left as `None` defers to
/// the next layer.
#[derive(Debug, Clone, Copy)]
pub struct IgnoreSettings {
    /// Skip hidden files and directories.
    pub hidden: Option<bool>,
    /// Read ignore files from parent directories.
    pub parents: Option<bool>,
    /// Honor `.ignore` files.
    pub ignore: Option<bool>,
    /// Honor the global gitignore file.
    pub git_global: Option<bool>,
    /// Honor `.gitignore` files.
    pub git_ignore: Option<bool>,
    /// Honor `.git/info/exclude` files.
    pub git_exclude: Option<bool>,
    /// Do not cross file-system boundaries.
    pub same_file_system: Option<bool>,
}

impl Default for IgnoreSettings {
    /// A layer that sets nothing: every toggle defers to the next layer.
    fn default() -> (r: Self)
        ensures
            r.hidden is None,
            r.parents is None,
            r.ignore is None,
            r.git_global is None,
            r.git_ignore is None,
            r.git_exclude is None,
            r.same_file_system is None,
    {
        Self {
            hidden: None,
            parents: None,
            ignore: None,
            git_ignore: None,
            git_global: None,
            git_exclude: None,
            same_file_system: None,
        }
    }
}

/// The fully resolved ignore policy: every toggle set to a concrete value.
#[derive(Debug, Clone, Copy, PartialEq, Eq, Structural)]
pub struct IgnorePolicy {
    pub hidden: bool,
    pub parents: bool,
    pub ignore: bool,
    pub git_global: bool,
    pub git_ignore: bool,
    pub git_exclude: bool,
    pub same_file_system: bool,
}

/// Three-tier resolution of one toggle: the sync entry's value wins; else
/// the general settings' value; else the built-in default `true`.
pub open spec fn resolve_toggle(entry: Option<bool>, general: Option<bool>) -> bool {
    match entry {
        Some(b) => b,
        None => match general {
            Some(b) => b,
            None => true,
        },
    }
}

/// Resolves one toggle as [`resolve_toggle`] describes.
pub fn resolve_toggle_value(entry: Option<bool>, general: Option<bool>) -> (r: bool)
    ensures
        r == resolve_toggle(entry, general),
{
    match entry {
        Some(b) => b,
        None => match general {
            Some(b) => b,
            None => true,
        },
    }
}

/// Resolves the whole policy for one sync entry. Each toggle is resolved
/// independently from that toggle's entry and general values alone, so an
/// entry may override a single toggle and inherit the rest.
pub fn resolve_ignore_policy(entry: &IgnoreSettings, general: &IgnoreSettings) -> (r: IgnorePolicy)
    ensures
        r.hidden == resolve_toggle(entry.hidden, general.hidden),
        r.parents == resolve_toggle(entry.parents, general.parents),
        r.ignore == resolve_toggle(entry.ignore, general.ignore),
        r.git_global == resolve_toggle(entry.git_global, general.git_global),
        r.git_ignore == resolve_toggle(entry.git_ignore, general.git_ignore),
        r.git_exclude == resolve_toggle(entry.git_exclude, general.git_exclude),
        r.same_file_system == resolve_toggle(entry.same_file_system, general.same_file_system),
{
    IgnorePolicy {
        hidden: resolve_toggle_value(entry.hidden, general.hidden),
        parents: resolve_toggle_value(entry.parents, general.parents),
        ignore: resolve_toggle_value(entry.ignore, general.ignore),
        git_global: resolve_toggle_value(entry.git_global, general.git_global),
        git_ignore: resolve_toggle_value(entry.git_ignore, general.git_ignore),
        git_exclude: resolve_toggle_value(entry.git_exclude, general.git_exclude),
        same_file_system: resolve_toggle_value(entry.same_file_system, general.same_file_system),
    }
}

/// Law: three-tier fallback per toggle. A value set on the sync entry wins
/// regardless of the general settings; else a value set on the general
/// settings wins; else the built-in default `true` applies.
pub proof fn lemma_toggle_resolution(entry: Option<bool>, general: Option<bool>)
    ensures
        entry is Some ==> resolve_toggle(entry, general) == entry->0,
        entry is None && general is Some ==> resolve_toggle(entry, general) == general->0,
        entry is None && general is None ==> resolve_toggle(entry, general) == true,
{
}

/// Law: resolution is independent per toggle. Whatever the two layers say
/// about the other six toggles, one toggle resolves from its own pair of
/// optional values alone, so overrides cannot cross-contaminate.
pub proof fn lemma_toggle_independence(
    entry_a: IgnoreSettings,
    general_a: IgnoreSettings,
    entry_b: IgnoreSettings,
    general_b: IgnoreSettings,
)
    requires
        entry_a.hidden == entry_b.hidden,
        general_a.hidden == general_b.hidden,
    ensures
        resolve_toggle(entry_a.hidden, general_a.hidden) == resolve_toggle(
            entry_b.hidden,
            general_b.hidden,
        ),
{
}

} // verus!
