//! The branch classifier: reads a semantic category out of the current
//! branch's name.

use vstd::prelude::*;
use crate::chars::{lower_seq, lowercase};
use crate::extract::{extract_triple, version_from_string};
use crate::semver::SemanticVersion;

verus! {

/// What the branch name tells about the version.
#[derive(Debug, Clone)]
pub enum BranchVersion {
    /// A master-like branch: `master`, `main` or `release`.
    Master,
    /// A branch whose name itself parses as a version.
    Release(SemanticVersion),
    /// A `feature/...` branch, with the part after the prefix.
    Feature(String),
    /// A `fix/...` branch, with the part after the prefix.
    Fix(String),
    /// Any other branch, with its whole name.
    Other(String),
}

/// `p` is a prefix of `s`.
pub open spec fn starts_with(s: Seq<char>, p: Seq<char>) -> bool {
    p.len() <= s.len() && s.subrange(0, p.len() as int) == p
}

/// The lowered name is one of the master-like branch names.
pub open spec fn is_master_name(low: Seq<char>) -> bool {
    low == "master"@ || low == "main"@ || low == "release"@
}

/// First classification rule: the name parses as a version.
pub open spec fn release_guard(low: Seq<char>) -> bool {
    extract_triple(low) is Some
}

/// Second rule: not a version, and a master-like name.
pub open spec fn master_guard(low: Seq<char>) -> bool {
    !release_guard(low) && is_master_name(low)
}

/// Third rule: neither of the above, and a `feature/` prefix.
pub open spec fn feature_guard(low: Seq<char>) -> bool {
    !release_guard(low) && !is_master_name(low) && starts_with(low, "feature/"@)
}

/// Fourth rule: none of the above, and a `fix/` prefix.
pub open spec fn fix_guard(low: Seq<char>) -> bool {
    !release_guard(low) && !is_master_name(low) && !starts_with(low, "feature/"@)
        && starts_with(low, "fix/"@)
}

/// Last rule: everything the four above leave.
pub open spec fn other_guard(low: Seq<char>) -> bool {
    !release_guard(low) && !is_master_name(low) && !starts_with(low, "feature/"@)
        && !starts_with(low, "fix/"@)
}

/// The classification contract: `r` is the category of the lowered name
/// `low`, first matching rule winning, with the category's payload drawn
/// from the name.
pub open spec fn branch_matches(low: Seq<char>, r: BranchVersion) -> bool {
    match r {
        BranchVersion::Release(v) => release_guard(low) && extract_triple(low) == Some(
            ((v.major as nat), (v.minor as nat), (v.patch as nat)),
        ) && v.ident is None && v.commit is None,
        BranchVersion::Master => master_guard(low),
        BranchVersion::Feature(name) => feature_guard(low) && name@ == low.skip(8),
        BranchVersion::Fix(name) => fix_guard(low) && name@ == low.skip(4),
        BranchVersion::Other(name) => other_guard(low) && name@ == low,
    }
}

/// Law: classification is total and mutually exclusive — every name
/// satisfies exactly one of the five category rules.
pub proof fn lemma_branch_categories_exclusive(low: Seq<char>)
    ensures
        release_guard(low) || master_guard(low) || feature_guard(low) || fix_guard(low)
            || other_guard(low),
        !(release_guard(low) && master_guard(low)),
        !(release_guard(low) && feature_guard(low)),
        !(release_guard(low) && fix_guard(low)),
        !(release_guard(low) && other_guard(low)),
        !(master_guard(low) && feature_guard(low)),
        !(master_guard(low) && fix_guard(low)),
        !(master_guard(low) && other_guard(low)),
        !(feature_guard(low) && fix_guard(low)),
        !(feature_guard(low) && other_guard(low)),
        !(fix_guard(low) && other_guard(low)),
{
}

fn str_eq(s: &str, p: &str) -> (r: bool)
    ensures
        r == (s@ == p@),
{
    let n = s.unicode_len();
    let m = p.unicode_len();
    if n != m {
        return false;
    }
    let mut i: usize = 0;
    while i < n
        invariant
            i <= n,
            n == s@.len(),
            n == p@.len(),
            forall|k: int| 0 <= k < i ==> s@[k] == p@[k],
        decreases n - i,
    {
        if s.get_char(i) != p.get_char(i) {
            return false;
        }
        i = i + 1;
    }
    proof {
        assert(s@ =~= p@);
    }
    true
}

pub fn str_starts_with(s: &str, p: &str) -> (r: bool)
    ensures
        r == starts_with(s@, p@),
{
    let n = s.unicode_len();
    let m = p.unicode_len();
    if m > n {
        return false;
    }
    let mut i: usize = 0;
    while i < m
        invariant
            i <= m <= n,
            n == s@.len(),
            m == p@.len(),
            forall|k: int| 0 <= k < i ==> s@[k] == p@[k],
        decreases m - i,
    {
        if s.get_char(i) != p.get_char(i) {
            proof {
                assert(s@.subrange(0, p@.len() as int)[i as int] != p@[i as int]);
            }
            return false;
        }
        i = i + 1;
    }
    proof {
        assert(s@.subrange(0, p@.len() as int) =~= p@);
    }
    true
}

/// Classifies a branch name, folded to lowercase first. Total: every name
/// falls in exactly one category, the first matching rule winning.
pub fn branch_version(raw_name: &str) -> (r: BranchVersion)
    ensures
        branch_matches(lower_seq(raw_name@), r),
{
    let low = lowercase(raw_name);
    match version_from_string(raw_name, None) {
        Some(v) => BranchVersion::Release(v),
        None => {
            if str_eq(low.as_str(), "master") || str_eq(low.as_str(), "main") || str_eq(
                low.as_str(),
                "release",
            ) {
                BranchVersion::Master
            } else if str_starts_with(low.as_str(), "feature/") {
                proof {
                    reveal_strlit("feature/");
                }
                let n = low.as_str().unicode_len();
                let rest = low.as_str().substring_char(8, n).to_owned();
                proof {
                    assert(rest@ =~= lower_seq(raw_name@).skip(8));
                }
                BranchVersion::Feature(rest)
            } else if str_starts_with(low.as_str(), "fix/") {
                proof {
                    reveal_strlit("fix/");
                }
                let n = low.as_str().unicode_len();
                let rest = low.as_str().substring_char(4, n).to_owned();
                proof {
                    assert(rest@ =~= lower_seq(raw_name@).skip(4));
                }
                BranchVersion::Fix(rest)
            } else {
                BranchVersion::Other(low)
            }
        },
    }
}

} // verus!
