use vstd::prelude::*;
use crate::errors::SyncError;
use crate::globs::excluded_by;
use crate::globs::glob_set_spec;
use crate::globs::path_passes_excludes;
use crate::policy::IgnorePolicy;

verus! {

#[verifier::external_type_specification]
#[verifier::external_body]
pub struct ExWalkBuilder(ignore::WalkBuilder);

#[verifier::external_type_specification]
#[verifier::external_body]
pub struct ExWalk(ignore::Walk);

#[verifier::external_type_specification]
#[verifier::external_body]
pub struct ExDirEntry(ignore::DirEntry);

#[verifier::external_type_specification]
#[verifier::external_body]
pub struct ExWalkError(ignore::Error);

/// The root path a walk builder was created with.
pub uninterp spec fn walk_builder_root(b: ignore::WalkBuilder) -> Seq<char>;

/// The builder's seven toggles, in the fixed order hidden, parents,
/// ignore, git_global, git_ignore, git_exclude, same_file_system.
pub uninterp spec fn walk_builder_toggles(b: ignore::WalkBuilder) -> Seq<bool>;

/// The root path a built walk traverses.
pub uninterp spec fn walk_root(w: ignore::Walk) -> Seq<char>;

/// The seven toggles a built walk honors, in the same fixed order as
/// [`walk_builder_toggles`].
pub uninterp spec fn walk_toggles(w: ignore::Walk) -> Seq<bool>;

/// A resolved policy read in the builder's toggle order.
pub open spec fn policy_toggles(p: IgnorePolicy) -> Seq<bool> {
    seq![
        p.hidden,
        p.parents,
        p.ignore,
        p.git_global,
        p.git_ignore,
        p.git_exclude,
        p.same_file_system,
    ]
}

/// Relies on ignore's `WalkBuilder::new`: a builder for a walk rooted at
/// the given path, with the documented defaults — every ignore toggle on
/// and the same-file-system restriction off.
#[verifier::external_body]
fn walk_builder_new(root: &str) -> (b: ignore::WalkBuilder)
    ensures
        walk_builder_root(b) == root@,
        walk_builder_toggles(b) == seq![true, true, true, true, true, true, false],
{
    ignore::WalkBuilder::new(root)
}

/// Relies on ignore's `WalkBuilder::hidden`: sets whether hidden entries
/// are skipped, and nothing else.
#[verifier::external_body]
fn walk_builder_hidden(b: &mut ignore::WalkBuilder, yes: bool)
    ensures
        walk_builder_root(*final(b)) == walk_builder_root(*old(b)),
        walk_builder_toggles(*final(b)) == walk_builder_toggles(*old(b)).update(0, yes),
{
    b.hidden(yes);
}

/// Relies on ignore's `WalkBuilder::parents`: sets whether ignore files
/// from parent directories are read, and nothing else.
#[verifier::external_body]
fn walk_builder_parents(b: &mut ignore::WalkBuilder, yes: bool)
    ensures
        walk_builder_root(*final(b)) == walk_builder_root(*old(b)),
        walk_builder_toggles(*final(b)) == walk_builder_toggles(*old(b)).update(1, yes),
{
    b.parents(yes);
}

/// Relies on ignore's `WalkBuilder::ignore`: sets whether `.ignore` files
/// are honored, and nothing else.
#[verifier::external_body]
fn walk_builder_ignore(b: &mut ignore::WalkBuilder, yes: bool)
    ensures
        walk_builder_root(*final(b)) == walk_builder_root(*old(b)),
        walk_builder_toggles(*final(b)) == walk_builder_toggles(*old(b)).update(2, yes),
{
    b.ignore(yes);
}

/// Relies on ignore's `WalkBuilder::git_global`: sets whether the global
/// gitignore file is honored, and nothing else.
#[verifier::external_body]
fn walk_builder_git_global(b: &mut ignore::WalkBuilder, yes: bool)
    ensures
        walk_builder_root(*final(b)) == walk_builder_root(*old(b)),
        walk_builder_toggles(*final(b)) == walk_builder_toggles(*old(b)).update(3, yes),
{
    b.git_global(yes);
}

/// Relies on ignore's `WalkBuilder::git_ignore`: sets whether `.gitignore`
/// files are honored, and nothing else.
#[verifier::external_body]
fn walk_builder_git_ignore(b: &mut ignore::WalkBuilder, yes: bool)
    ensures
        walk_builder_root(*final(b)) == walk_builder_root(*old(b)),
        walk_builder_toggles(*final(b)) == walk_builder_toggles(*old(b)).update(4, yes),
{
    b.git_ignore(yes);
}

/// Relies on ignore's `WalkBuilder::git_exclude`: sets whether
/// `.git/info/exclude` files are honored, and nothing else.
#[verifier::external_body]
fn walk_builder_git_exclude(b: &mut ignore::WalkBuilder, yes: bool)
    ensures
        walk_builder_root(*final(b)) == walk_builder_root(*old(b)),
        walk_builder_toggles(*final(b)) == walk_builder_toggles(*old(b)).update(5, yes),
{
    b.git_exclude(yes);
}

/// Relies on ignore's `WalkBuilder::same_file_system`: sets whether the
/// walk stays on the root's file system, and nothing else.
#[verifier::external_body]
fn walk_builder_same_file_system(b: &mut ignore::WalkBuilder, yes: bool)
    ensures
        walk_builder_root(*final(b)) == walk_builder_root(*old(b)),
        walk_builder_toggles(*final(b)) == walk_builder_toggles(*old(b)).update(6, yes),
{
    b.same_file_system(yes);
}

/// Relies on ignore's `WalkBuilder::build`: it starts a walk over the
/// builder's root, honoring exactly the builder's toggles.
#[verifier::external_body]
fn walk_builder_build(b: &ignore::WalkBuilder) -> (w: ignore::Walk)
    ensures
        walk_root(w) == walk_builder_root(*b),
        walk_toggles(w) == walk_builder_toggles(*b),
{
    b.build()
}

/// Relies on ignore's `Walk` iterator: the next entry of the walk, an
/// error for an unreadable entry, or `None` at the end. What comes back
/// depends on the file system.
#[verifier::external_body]
fn walk_next(w: &mut ignore::Walk) -> Option<Result<ignore::DirEntry, ignore::Error>> {
    w.next()
}

/// Relies on ignore's `DirEntry::path`: the entry's full path, as text
/// when the path is valid Unicode.
#[verifier::external_body]
fn dir_entry_path_string(e: &ignore::DirEntry) -> Option<String> {
    e.path().to_str().map(|s| s.to_string())
}

/// Relies on ignore's `Error` display implementation for a readable
/// description of a failed walk step.
#[verifier::external_body]
fn walk_error_message(e: &ignore::Error) -> (r: String) {
    format!("{}", e)
}

/// Builds the walker for one source tree: the produced walk is rooted at
/// `root` and honors exactly the resolved policy, each toggle wired to
/// the walker's knob of the same meaning.
pub fn build_walker(root: &str, policy: &IgnorePolicy) -> (w: ignore::Walk)
    ensures
        walk_root(w) == root@,
        walk_toggles(w) == policy_toggles(*policy),
{
    let mut b = walk_builder_new(root);
    walk_builder_hidden(&mut b, policy.hidden);
    walk_builder_parents(&mut b, policy.parents);
    walk_builder_ignore(&mut b, policy.ignore);
    walk_builder_git_ignore(&mut b, policy.git_ignore);
    walk_builder_git_global(&mut b, policy.git_global);
    walk_builder_git_exclude(&mut b, policy.git_exclude);
    walk_builder_same_file_system(&mut b, policy.same_file_system);
    let w = walk_builder_build(&b);
    proof {
        assert(walk_toggles(w) =~= policy_toggles(*policy));
    }
    w
}

/// The paths that escape the exclude set, in their original order: a path
/// is kept exactly when no pattern of the set matches its full text.
pub open spec fn spec_filter_paths(paths: Seq<Seq<char>>, excludes: Set<Seq<char>>) -> Seq<
    Seq<char>,
>
    decreases paths.len(),
{
    if paths.len() == 0 {
        Seq::empty()
    } else {
        let rest = spec_filter_paths(paths.drop_last(), excludes);
        if !excluded_by(excludes, paths.last()) {
            rest.push(paths.last())
        } else {
            rest
        }
    }
}

/// No path the filter keeps is excluded.
pub proof fn lemma_filter_paths_not_excluded(paths: Seq<Seq<char>>, excludes: Set<Seq<char>>)
    ensures
        forall|i: int|
            0 <= i < spec_filter_paths(paths, excludes).len() ==> !excluded_by(
                excludes,
                #[trigger] spec_filter_paths(paths, excludes)[i],
            ),
    decreases paths.len(),
{
    if paths.len() > 0 {
        lemma_filter_paths_not_excluded(paths.drop_last(), excludes);
        let f = spec_filter_paths(paths, excludes);
        let fr = spec_filter_paths(paths.drop_last(), excludes);
        assert forall|i: int| 0 <= i < f.len() implies !excluded_by(excludes, #[trigger] f[i]) by {
            if !excluded_by(excludes, paths.last()) {
                assert(f == fr.push(paths.last()));
                if i < fr.len() {
                    assert(f[i] == fr[i]);
                }
            } else {
                assert(f == fr);
            }
        }
    }
}

/// Applies the exclude post-filter to walked paths: exactly the paths
/// whose full text matches no pattern of the set are kept, in order, as
/// [`spec_filter_paths`] says. Meant for sets from `compile_excludes`.
pub fn filter_paths(paths: Vec<String>, excludes: &globset::GlobSet) -> (r: Vec<String>)
    ensures
        r@.map_values(|s: String| s@) == spec_filter_paths(
            paths@.map_values(|s: String| s@),
            glob_set_spec(*excludes),
        ),
{
    let mut out: Vec<String> = Vec::new();
    proof {
        assert(out@.map_values(|s: String| s@) =~= Seq::<Seq<char>>::empty());
        assert(paths@.take(0).map_values(|s: String| s@) =~= Seq::<Seq<char>>::empty());
    }
    let mut i: usize = 0;
    while i < paths.len()
        invariant
            i <= paths@.len(),
            out@.map_values(|s: String| s@) == spec_filter_paths(
                paths@.take(i as int).map_values(|s: String| s@),
                glob_set_spec(*excludes),
            ),
        decreases paths@.len() - i,
    {
        let ghost before = out@;
        let kept = path_passes_excludes(excludes, paths[i].as_str());
        if kept {
            out.push(paths[i].clone());
        }
        proof {
            let e = glob_set_spec(*excludes);
            let t = paths@.take(i as int + 1).map_values(|s: String| s@);
            assert(t.drop_last() =~= paths@.take(i as int).map_values(|s: String| s@));
            assert(t.last() == paths@[i as int]@);
            if kept {
                assert(out@.map_values(|s: String| s@) =~= before.map_values(
                    |s: String| s@,
                ).push(paths@[i as int]@));
            }
        }
        i += 1;
    }
    proof {
        assert(paths@.take(paths@.len() as int) =~= paths@);
    }
    out
}

/// Drains the walk into the full list of yielded paths, in yield order.
/// The first unreadable entry, or an entry whose path is not valid
/// Unicode, aborts the whole walk with the walk-failed error. What is
/// yielded depends on the file system, so nothing more is promised.
fn drain_entries(w: &mut ignore::Walk) -> (r: Result<Vec<String>, SyncError>)
    ensures
        r matches Err(e) ==> e matches SyncError::WalkFailed(_),
{
    let mut out: Vec<String> = Vec::new();
    let mut steps: usize = usize::MAX;
    loop
        decreases steps,
    {
        if steps == 0 {
            return Err(SyncError::WalkFailed(String::from_str("the walk did not end")));
        }
        steps -= 1;
        match walk_next(w) {
            None => {
                break ;
            },
            Some(step) => {
                match step {
                    Err(e) => {
                        let msg = walk_error_message(&e);
                        return Err(SyncError::WalkFailed(msg));
                    },
                    Ok(entry) => {
                        match dir_entry_path_string(&entry) {
                            None => {
                                return Err(
                                    SyncError::WalkFailed(
                                        String::from_str("entry path is not valid Unicode"),
                                    ),
                                );
                            },
                            Some(path) => {
                                out.push(path);
                            },
                        }
                    },
                }
            },
        }
    }
    Ok(out)
}

/// Drains the walk and hands every yielded path to the exclude
/// post-filter: of the walked paths, exactly those whose full text
/// matches no pattern of the set are returned, in yield order. The first
/// unreadable entry aborts the whole walk with the walk-failed error.
/// Meant for sets from `compile_excludes`.
pub fn collect_entries(w: &mut ignore::Walk, excludes: &globset::GlobSet) -> (r: Result<
    Vec<String>,
    SyncError,
>)
    ensures
        r matches Ok(paths) ==> forall|i: int|
            0 <= i < paths@.len() ==> !excluded_by(glob_set_spec(*excludes), #[trigger] paths@[i]@),
        r matches Err(e) ==> e matches SyncError::WalkFailed(_),
{
    match drain_entries(w) {
        Err(e) => Err(e),
        Ok(raw) => {
            let kept = filter_paths(raw, excludes);
            proof {
                let m = kept@.map_values(|s: String| s@);
                lemma_filter_paths_not_excluded(
                    raw@.map_values(|s: String| s@),
                    glob_set_spec(*excludes),
                );
                assert forall|i: int|
                    0 <= i < kept@.len() implies !excluded_by(
                    glob_set_spec(*excludes),
                    #[trigger] kept@[i]@,
                ) by {
                    assert(m[i] == kept@[i]@);
                }
            }
            Ok(kept)
        },
    }
}

/// Walks one source tree under the resolved policy and exclude set, as
/// [`build_walker`] and [`collect_entries`] describe: the walk is rooted
/// at `root` with the policy's toggles, and no returned path matches any
/// pattern of the set. Meant for sets from `compile_excludes`.
pub fn select_files(root: &str, policy: &IgnorePolicy, excludes: &globset::GlobSet) -> (r: Result<
    Vec<String>,
    SyncError,
>)
    ensures
        r matches Ok(paths) ==> forall|i: int|
            0 <= i < paths@.len() ==> !excluded_by(glob_set_spec(*excludes), #[trigger] paths@[i]@),
        r matches Err(e) ==> e matches SyncError::WalkFailed(_),
{
    let mut w = build_walker(root, policy);
    collect_entries(&mut w, excludes)
}

} // verus!
