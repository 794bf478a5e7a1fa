//! The history locator: walks the first-parent commit chain, newest first,
//! for the nearest prior release point, counting the distance to it.

use vstd::prelude::*;
use crate::chars::lower_seq;
use crate::extract::{extract_triple, version_from_string};
use crate::branch::{starts_with, str_starts_with};
use crate::semver::SemanticVersion;
use crate::VersionError;

verus! {

/// Hard bound on the walk: histories deeper than this fail rather than take
/// unbounded work.
pub const MAX_WALK: usize = 4096;

/// One commit of the first-parent chain, newest first: its full message, its
/// short identifier, and the name of a tag pointing at it, if any.
#[derive(Debug, Clone)]
pub struct CommitRecord {
    pub message: String,
    pub short_id: Option<String>,
    pub tag: Option<String>,
}

/// The version a commit's message announces: the message, folded to
/// lowercase, starts with the release marker and parses as a version.
pub open spec fn msg_hit(r: CommitRecord) -> Option<(nat, nat, nat)> {
    let low = lower_seq(r.message@);
    if starts_with(low, "release:"@) {
        extract_triple(low)
    } else {
        None
    }
}

/// The version a commit's tag announces: the tag's name parses as a version.
pub open spec fn tag_hit(r: CommitRecord) -> Option<(nat, nat, nat)> {
    match r.tag {
        Some(t) => extract_triple(lower_seq(t@)),
        None => None,
    }
}

/// The release point a commit marks, the message marker winning over a tag;
/// `None` for an ordinary commit.
pub open spec fn hit(r: CommitRecord) -> Option<(nat, nat, nat)> {
    if msg_hit(r) is Some {
        msg_hit(r)
    } else {
        tag_hit(r)
    }
}

/// Index of the first commit at or after `i` that marks a release point, or
/// the chain's length if none does.
pub open spec fn first_hit_from(s: Seq<CommitRecord>, i: int) -> int
    decreases s.len() - i when 0 <= i <= s.len()
{
    if i >= s.len() {
        i
    } else if hit(s[i]) is Some {
        i
    } else {
        first_hit_from(s, i + 1)
    }
}

proof fn lemma_first_hit_from_is(s: Seq<CommitRecord>, i: int, j: int)
    requires
        0 <= i <= j <= s.len(),
        forall|k: int| i <= k < j ==> hit(#[trigger] s[k]) is None,
        j < s.len() ==> hit(s[j]) is Some,
    ensures
        first_hit_from(s, i) == j,
    decreases j - i,
{
    if i < j {
        lemma_first_hit_from_is(s, i + 1, j);
    }
}

proof fn lemma_first_hit_from_bounds(s: Seq<CommitRecord>, i: int)
    requires
        0 <= i <= s.len(),
    ensures
        i <= first_hit_from(s, i) <= s.len(),
    decreases s.len() - i,
{
    if i < s.len() && !(hit(s[i]) is Some) {
        lemma_first_hit_from_bounds(s, i + 1);
    }
}

proof fn lemma_first_hit_from_ge(s: Seq<CommitRecord>, i: int, j: int)
    requires
        0 <= i <= j <= s.len(),
        forall|k: int| i <= k < j ==> hit(#[trigger] s[k]) is None,
    ensures
        first_hit_from(s, i) >= j,
    decreases j - i,
{
    if i < j {
        lemma_first_hit_from_ge(s, i + 1, j);
    } else {
        lemma_first_hit_from_bounds(s, i);
    }
}

/// Law: a history with no tagged commit and no release-marked message has no
/// release point anywhere: the walk, if it stays within the bound, reports
/// no release and a distance equal to the whole chain's length.
pub proof fn lemma_walk_without_releases(s: Seq<CommitRecord>)
    requires
        forall|i: int| 0 <= i < s.len() ==> (#[trigger] s[i]).tag is None,
        forall|i: int|
            0 <= i < s.len() ==> !starts_with(lower_seq((#[trigger] s[i]).message@), "release:"@),
    ensures
        first_hit_from(s, 0) == s.len(),
{
    assert forall|i: int| 0 <= i < s.len() implies hit(#[trigger] s[i]) is None by {
        assert(msg_hit(s[i]) is None);
        assert(tag_hit(s[i]) is None);
    }
    lemma_first_hit_from_is(s, 0, s.len() as int);
}

/// A version for a commit that sits some commits (patches) past a release
/// point; `release` absent when the walk exhausted the chain without one.
#[derive(Debug, Clone)]
pub struct PatchVersion {
    pub release: Option<SemanticVersion>,
    pub patch_count: usize,
    pub patch_short: Option<String>,
    pub ident: Option<String>,
}

pub(crate) fn clone_opt(o: &Option<String>) -> (r: Option<String>)
    ensures
        r == *o,
{
    match o {
        Some(s) => Some(s.clone()),
        None => None,
    }
}

impl PatchVersion {
    pub fn new(
        release: SemanticVersion,
        distance: usize,
        ident: Option<String>,
        short: Option<String>,
    ) -> (pv: Self)
        ensures
            pv.release == Some(release),
            pv.patch_count == distance,
            pv.ident == ident,
            pv.patch_short == short,
    {
        Self { release: Some(release), patch_count: distance, patch_short: short, ident }
    }

    /// The head-derived semantic version does not overflow the patch
    /// component.
    pub open spec fn no_patch_overflow(self) -> bool {
        match self.release {
            Some(rv) => rv.patch + self.patch_count <= usize::MAX,
            None => true,
        }
    }

    /// The head-derived version: the release point's version, its patch
    /// component advanced by the distance walked; all zero when there was no
    /// release point.
    pub open spec fn semver_spec(self) -> SemanticVersion {
        match self.release {
            Some(rv) => (SemanticVersion {
                major: rv.major,
                minor: rv.minor,
                patch: (rv.patch + self.patch_count) as usize,
                ident: self.ident,
                commit: self.patch_short,
            }),
            None => (SemanticVersion {
                major: 0,
                minor: 0,
                patch: self.patch_count,
                ident: self.ident,
                commit: self.patch_short,
            }),
        }
    }

    pub fn semver(&self) -> (v: SemanticVersion)
        requires
            self.no_patch_overflow(),
        ensures
            v == self.semver_spec(),
    {
        match &self.release {
            Some(rv) => SemanticVersion::new(
                rv.major,
                rv.minor,
                rv.patch + self.patch_count,
                clone_opt(&self.ident),
                clone_opt(&self.patch_short),
            ),
            None => SemanticVersion::new(
                0,
                0,
                self.patch_count,
                clone_opt(&self.ident),
                clone_opt(&self.patch_short),
            ),
        }
    }
}

/// Walks the commit chain, newest first, for the nearest release point: a
/// commit whose message starts with the release marker and parses as a
/// version, or failing that, one whose tag's name parses as a version.
/// Returns that version and the distance walked; a chain exhausted without a
/// release point is a successful outcome with no release; a walk past the
/// bound fails.
pub fn head_version(commits: &Vec<CommitRecord>, head_short: Option<String>) -> (r: Result<
    PatchVersion,
    VersionError,
>)
    ensures
        r is Err <==> (commits@.len() > MAX_WALK && first_hit_from(commits@, 0) > MAX_WALK),
        match r {
            Ok(pv) => {
                let fh = first_hit_from(commits@, 0);
                &&& pv.patch_short == head_short
                &&& pv.ident is None
                &&& if fh < commits@.len() && fh <= MAX_WALK {
                    &&& pv.patch_count == fh
                    &&& pv.release matches Some(v) && hit(commits@[fh]) == Some(
                        ((v.major as nat), (v.minor as nat), (v.patch as nat)),
                    ) && v.ident is None && v.commit == commits@[fh].short_id
                } else {
                    &&& fh == commits@.len() <= MAX_WALK
                    &&& pv.release is None
                    &&& pv.patch_count == commits@.len()
                }
            },
            Err(e) => e == VersionError::HistoryTooDeep,
        },
{
    let n = commits.len();
    let mut i: usize = 0;
    while i < n
        invariant
            i <= n,
            n == commits@.len(),
            i <= MAX_WALK,
            forall|k: int| 0 <= k < i ==> hit(#[trigger] commits@[k]) is None,
        decreases n - i,
    {
        let rec = &commits[i];
        let low_msg = crate::chars::lowercase(rec.message.as_str());
        if str_starts_with(low_msg.as_str(), "release:") {
            match version_from_string(rec.message.as_str(), clone_opt(&rec.short_id)) {
                Some(v) => {
                    proof {
                        assert(hit(commits@[i as int]) == msg_hit(commits@[i as int]));
                        lemma_first_hit_from_is(commits@, 0, i as int);
                    }
                    return Ok(PatchVersion::new(v, i, None, head_short));
                },
                None => {},
            }
        }
        proof {
            assert(msg_hit(commits@[i as int]) is None);
        }
        match &rec.tag {
            Some(t) => {
                match version_from_string(t.as_str(), clone_opt(&rec.short_id)) {
                    Some(v) => {
                        proof {
                            assert(hit(commits@[i as int]) == tag_hit(commits@[i as int]));
                            lemma_first_hit_from_is(commits@, 0, i as int);
                        }
                        return Ok(PatchVersion::new(v, i, None, head_short));
                    },
                    None => {},
                }
            },
            None => {},
        }
        proof {
            assert(hit(commits@[i as int]) is None);
        }
        if i + 1 > MAX_WALK {
            proof {
                lemma_first_hit_from_ge(commits@, 0, i + 1);
            }
            return Err(VersionError::HistoryTooDeep);
        }
        i = i + 1;
    }
    proof {
        lemma_first_hit_from_is(commits@, 0, n as int);
    }
    Ok(PatchVersion { release: None, patch_count: n, patch_short: head_short, ident: None })
}

} // verus!
