//! Derives a deterministic semantic version for a source checkout from two
//! signals: the current branch's name and the commit history since the last
//! recognized release point.

pub mod chars;
pub mod numbers;
pub mod semver;
pub mod extract;
pub mod branch;
pub mod history;
pub mod merge;
pub mod release;

use vstd::prelude::*;

verus! {

/// Fatal domain failures of the version derivation engine.
///
/// Benign absences ("no version found in this text", "no release point in
/// history") are not errors: they are `None` results handled by the callers.
#[derive(Clone, Copy, Debug, PartialEq, Eq, Structural)]
pub enum VersionError {
    /// The history walk exceeded its hard bound without finding a release point.
    HistoryTooDeep,
    /// Branch name and history disagree on a major or minor component.
    VersionMismatch,
    /// The current version sits exactly on a release point: nothing to release.
    NothingToRelease,
}

impl VersionError {
    /// The one-line human-readable description of the failure.
    pub fn message(&self) -> (s: &'static str)
        ensures
            *self == VersionError::HistoryTooDeep ==> s@ == "too many commits"@,
            *self == VersionError::VersionMismatch ==> s@ == "major version mismatch"@,
            *self == VersionError::NothingToRelease ==> s@ == "patch version is not zero"@,
    {
        match self {
            VersionError::HistoryTooDeep => "too many commits",
            VersionError::VersionMismatch => "major version mismatch",
            VersionError::NothingToRelease => "patch version is not zero",
        }
    }
}

} // verus!
