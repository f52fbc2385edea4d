use vstd::prelude::*;
use crate::errors::SyncError;
use crate::excludes::pattern_set;
use crate::excludes::lemma_pattern_set_contains;

verus! {

#[verifier::external_type_specification]
#[verifier::external_body]
pub struct ExGlob(globset::Glob);

#[verifier::external_type_specification]
#[verifier::external_body]
pub struct ExGlobSet(globset::GlobSet);

#[verifier::external_type_specification]
#[verifier::external_body]
pub struct ExGlobSetBuilder(globset::GlobSetBuilder);

#[verifier::external_type_specification]
#[verifier::external_body]
pub struct ExGlobError(globset::Error);

/// Whether the glob language accepts `pat` as a pattern.
pub uninterp spec fn glob_syntax_ok(pat: Seq<char>) -> bool;

/// The pattern text a compiled glob holds.
pub uninterp spec fn glob_spec(g: globset::Glob) -> Seq<char>;

/// The pattern texts added to a glob-set builder, in order.
pub uninterp spec fn glob_set_builder_spec(b: globset::GlobSetBuilder) -> Seq<Seq<char>>;

/// The pattern texts a built glob set holds.
pub uninterp spec fn glob_set_spec(gs: globset::GlobSet) -> Set<Seq<char>>;

/// Whether building a glob set from these pattern texts, in this order,
/// succeeds. Building compiles the patterns' joint matchers, so acceptance
/// is a function of the texts alone; the glob language accepting each
/// pattern does not by itself promise that this phase accepts them too.
pub uninterp spec fn glob_set_build_ok(pats: Seq<Seq<char>>) -> bool;

/// Whether compiling these pattern texts into one glob set succeeds:
/// each text is an accepted glob, and the set builds from them.
pub open spec fn glob_compile_ok(pats: Seq<Seq<char>>) -> bool {
    (forall|i: int| 0 <= i < pats.len() ==> glob_syntax_ok(#[trigger] pats[i]))
        && glob_set_build_ok(pats)
}

/// Whether the glob pattern `pat` matches the full path text `path`.
/// Matching is a function of the two texts alone.
pub uninterp spec fn glob_match(pat: Seq<char>, path: Seq<char>) -> bool;

/// Whether some pattern of the exclude set matches the full path text.
pub open spec fn excluded_by(pats: Set<Seq<char>>, path: Seq<char>) -> bool {
    exists|p: Seq<char>| pats.contains(p) && glob_match(p, path)
}

/// Relies on globset's `Glob::new`: it compiles exactly the patterns the
/// glob language accepts, and a compiled glob stands for its pattern text.
#[verifier::external_body]
fn glob_new(pat: &str) -> (r: Result<globset::Glob, globset::Error>)
    ensures
        r is Ok <==> glob_syntax_ok(pat@),
        r matches Ok(g) ==> glob_spec(g) == pat@,
{
    globset::Glob::new(pat)
}

/// Relies on globset's `GlobSetBuilder::new`: a fresh builder holds no
/// patterns.
#[verifier::external_body]
fn glob_set_builder_new() -> (b: globset::GlobSetBuilder)
    ensures
        glob_set_builder_spec(b) == Seq::<Seq<char>>::empty(),
{
    globset::GlobSetBuilder::new()
}

/// Relies on globset's `GlobSetBuilder::add`: it appends one compiled glob
/// to the builder.
#[verifier::external_body]
fn glob_set_builder_add(b: &mut globset::GlobSetBuilder, g: globset::Glob)
    ensures
        glob_set_builder_spec(*final(b)) == glob_set_builder_spec(*old(b)).push(glob_spec(g)),
{
    b.add(g);
}

/// Relies on globset's `GlobSetBuilder::build`: it succeeds exactly when
/// the added pattern texts build, and on success the produced set holds
/// exactly the patterns added to the builder.
#[verifier::external_body]
fn glob_set_build(b: &globset::GlobSetBuilder) -> (r: Result<globset::GlobSet, globset::Error>)
    ensures
        r is Ok <==> glob_set_build_ok(glob_set_builder_spec(*b)),
        r matches Ok(gs) ==> glob_set_spec(gs) == glob_set_builder_spec(*b).to_set(),
{
    b.build()
}

/// Relies on globset's `GlobSet::is_match`: it returns true exactly when
/// some glob in the set matches the path given.
#[verifier::external_body]
fn glob_set_is_match(gs: &globset::GlobSet, path: &str) -> (r: bool)
    ensures
        r == (exists|p: Seq<char>| glob_set_spec(*gs).contains(p) && glob_match(p, path@)),
{
    gs.is_match(path)
}

/// Relies on globset's `Error` display implementation for a readable
/// description of a refused pattern.
#[verifier::external_body]
fn glob_error_message(e: &globset::Error) -> (r: String) {
    format!("{}", e)
}

/// Compiles a resolved exclude list into one glob set. It succeeds exactly
/// when every pattern is an accepted glob and the set builds from them;
/// the first refused pattern fails the whole compilation with the
/// invalid-glob-pattern error naming it (fail fast, no partial set). On
/// success the set holds exactly the given patterns.
pub fn compile_excludes(patterns: &Vec<String>) -> (r: Result<globset::GlobSet, SyncError>)
    ensures
        r is Ok <==> glob_compile_ok(patterns@.map_values(|p: String| p@)),
        r matches Ok(gs) ==> glob_set_spec(gs) == pattern_set(patterns@),
        r matches Err(e) ==> e matches SyncError::InvalidGlobPattern(_),
{
    let mut builder = glob_set_builder_new();
    let mut k: usize = 0;
    while k < patterns.len()
        invariant
            k <= patterns@.len(),
            glob_set_builder_spec(builder) =~= patterns@.take(k as int).map_values(
                |p: String| p@,
            ),
            forall|i: int| 0 <= i < k ==> glob_syntax_ok(#[trigger] patterns@[i]@),
        decreases patterns@.len() - k,
    {
        let pat = &patterns[k];
        match glob_new(pat.as_str()) {
            Ok(g) => {
                glob_set_builder_add(&mut builder, g);
                proof {
                    let t = patterns@.take(k as int + 1).map_values(|p: String| p@);
                    assert(t =~= patterns@.take(k as int).map_values(|p: String| p@).push(pat@));
                }
            },
            Err(_) => {
                proof {
                    assert(patterns@.map_values(|p: String| p@)[k as int] == patterns@[k as int]@);
                    assert(!glob_syntax_ok(patterns@[k as int]@));
                }
                return Err(SyncError::InvalidGlobPattern(pat.clone()));
            },
        }
        k += 1;
    }
    proof {
        assert(patterns@.take(patterns@.len() as int) =~= patterns@);
        assert(glob_set_builder_spec(builder) == patterns@.map_values(|p: String| p@));
        let m = patterns@.map_values(|p: String| p@);
        assert forall|i: int| 0 <= i < m.len() implies glob_syntax_ok(m[i]) by {
            assert(m[i] == patterns@[i]@);
            assert(glob_syntax_ok(patterns@[i]@));
        }
    }
    match glob_set_build(&builder) {
        Ok(gs) => {
            proof {
                assert forall|x: Seq<char>|
                    glob_set_spec(gs).contains(x) == pattern_set(patterns@).contains(x) by {
                    lemma_pattern_set_contains(patterns@, x);
                    let m = patterns@.map_values(|p: String| p@);
                    if m.to_set().contains(x) {
                    }
                }
                assert(glob_set_spec(gs) =~= pattern_set(patterns@));
            }
            Ok(gs)
        },
        Err(e) => {
            let msg = glob_error_message(&e);
            Err(SyncError::InvalidGlobPattern(msg))
        },
    }
}

/// Whether the path's full text escapes every pattern of the exclude set:
/// true exactly when no pattern in the set matches it. Meant for sets
/// from [`compile_excludes`], which builds every glob with the default
/// options the named matching relation is read under.
pub fn path_passes_excludes(gs: &globset::GlobSet, path: &str) -> (r: bool)
    ensures
        r == !excluded_by(glob_set_spec(*gs), path@),
{
    !glob_set_is_match(gs, path)
}

} // verus!
