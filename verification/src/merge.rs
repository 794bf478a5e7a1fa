//! The merge policy: reconciles the branch-derived and the head-derived
//! version into one.

use vstd::prelude::*;
use crate::branch::BranchVersion;
use crate::history::PatchVersion;
use crate::semver::SemanticVersion;
use crate::VersionError;

verus! {

/// Two numeric components can be reconciled when either is unconstrained
/// (zero) or they are equal.
pub open spec fn compatible(a: usize, b: usize) -> bool {
    a == 0 || b == 0 || a == b
}

/// The reconciled component: zero yields the other side, equal values
/// themselves.
pub open spec fn nmerge_spec(a: usize, b: usize) -> usize {
    if a == 0 {
        b
    } else {
        a
    }
}

/// Reconciles one numeric component of the branch version with its
/// head-derived counterpart. Zero counts as unconstrained and yields the
/// other value; equal values agree; different nonzero values are a mismatch
/// that cannot be silently reconciled.
pub fn nmerge(branch: usize, head: usize) -> (r: Result<usize, VersionError>)
    ensures
        compatible(branch, head) ==> r == Ok::<usize, VersionError>(nmerge_spec(branch, head)),
        !compatible(branch, head) ==> r == Err::<usize, VersionError>(
            VersionError::VersionMismatch,
        ),
{
    if branch == 0 || head == 0 {
        Ok(branch + head)
    } else if branch == head {
        Ok(branch)
    } else {
        Err(VersionError::VersionMismatch)
    }
}

/// Merges the branch category with the head-derived version.
///
/// A master-like branch yields the head-derived version exactly; a release
/// branch must agree with history on major and minor, component by
/// component, and drops any identifier; a feature or fix branch stamps its
/// name as the identifier; any other branch stamps the literal identifier
/// `other`.
pub fn main_version(branch: BranchVersion, head: &PatchVersion) -> (r: Result<
    SemanticVersion,
    VersionError,
>)
    requires
        head.no_patch_overflow(),
    ensures
        ({
            let headv = head.semver_spec();
            match branch {
                BranchVersion::Master => r matches Ok(v) && v == headv,
                BranchVersion::Release(bv) => {
                    if compatible(bv.major, headv.major) && compatible(bv.minor, headv.minor) {
                        r matches Ok(v) && v.major == nmerge_spec(bv.major, headv.major)
                            && v.minor == nmerge_spec(bv.minor, headv.minor) && v.patch
                            == headv.patch && v.ident is None && v.commit == headv.commit
                    } else {
                        r == Err::<SemanticVersion, VersionError>(VersionError::VersionMismatch)
                    }
                },
                BranchVersion::Feature(f) => r matches Ok(v) && v.major == headv.major && v.minor
                    == headv.minor && v.patch == headv.patch && v.ident == Some(f) && v.commit
                    == headv.commit,
                BranchVersion::Fix(f) => r matches Ok(v) && v.major == headv.major && v.minor
                    == headv.minor && v.patch == headv.patch && v.ident == Some(f) && v.commit
                    == headv.commit,
                BranchVersion::Other(name) => r matches Ok(v) && v.major == headv.major && v.minor
                    == headv.minor && v.patch == headv.patch && (v.ident matches Some(id) && id@
                    == "other"@) && v.commit == headv.commit,
            }
        }),
{
    let headv = head.semver();
    match branch {
        BranchVersion::Master => Ok(headv),
        BranchVersion::Release(bv) => {
            let major = match nmerge(bv.major, headv.major) {
                Ok(m) => m,
                Err(e) => {
                    return Err(e);
                },
            };
            let minor = match nmerge(bv.minor, headv.minor) {
                Ok(m) => m,
                Err(e) => {
                    return Err(e);
                },
            };
            Ok(SemanticVersion::new(major, minor, headv.patch, None, headv.commit))
        },
        BranchVersion::Feature(f) => Ok(
            SemanticVersion::new(headv.major, headv.minor, headv.patch, Some(f), headv.commit),
        ),
        BranchVersion::Fix(f) => Ok(
            SemanticVersion::new(headv.major, headv.minor, headv.patch, Some(f), headv.commit),
        ),
        BranchVersion::Other(_name) => Ok(
            SemanticVersion::new(
                headv.major,
                headv.minor,
                headv.patch,
                Some("other".to_owned()),
                headv.commit,
            ),
        ),
    }
}

} // verus!
