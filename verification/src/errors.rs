use vstd::prelude::*;

verus! {

/// Everything that can abort a run: configuration and resolution failures,
/// a failed walk, and a transfer process that ended without an exit code.
/// Every failure is fatal for the whole run; nothing is retried.
#[derive(Debug)]
pub enum SyncError {
    /// A path expression referenced a variable that has no value in the
    /// variable environment. Carries the variable's name.
    UndefinedVariable(String),
    /// A path expression does not follow the path-expression grammar.
    MalformedExpression,
    /// An exclude pattern is not a valid glob. Carries the offending
    /// pattern or, when the joint build of the compiled set is refused,
    /// the glob engine's description of that refusal.
    InvalidGlobPattern(String),
    /// Walking a source tree failed. Carries the walker's own description.
    WalkFailed(String),
    /// The external transfer tool terminated without an exit code.
    MissingExitCode,
}

impl SyncError {
    /// A human-readable description of the failure.
    pub fn message(&self) -> (r: String)
        ensures
            match self {
                SyncError::UndefinedVariable(name) => r@ == "undefined variable: "@ + name@,
                SyncError::MalformedExpression => r@ == "malformed path expression"@,
                SyncError::InvalidGlobPattern(pat) => r@ == "invalid glob pattern: "@ + pat@,
                SyncError::WalkFailed(why) => r@ == "walk failed: "@ + why@,
                SyncError::MissingExitCode => r@
                    == "unable to get the exit code of the transfer process"@,
            },
    {
        match self {
            SyncError::UndefinedVariable(name) => String::from_str("undefined variable: ").concat(
                name.as_str(),
            ),
            SyncError::MalformedExpression => String::from_str("malformed path expression"),
            SyncError::InvalidGlobPattern(pat) => String::from_str("invalid glob pattern: ")
                .concat(pat.as_str()),
            SyncError::WalkFailed(why) => String::from_str("walk failed: ").concat(why.as_str()),
            SyncError::MissingExitCode => String::from_str(
                "unable to get the exit code of the transfer process",
            ),
        }
    }
}

} // verus!
