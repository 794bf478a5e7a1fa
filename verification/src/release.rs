//! The release cutter's decisions: the next version and the exact texts the
//! release writes. Performing the writes is the backend's business.

use vstd::prelude::*;
use crate::numbers::dec_digits;
use crate::semver::{SemanticVersion, render_spec};
use crate::VersionError;

verus! {

/// Everything a release writes, computed up front: the next version, the
/// changelog stub's name and single line, the commit message, and the
/// annotated tag's name and message.
#[derive(Debug, Clone)]
pub struct ReleasePlan {
    pub next: SemanticVersion,
    pub filename: String,
    pub file_line: String,
    pub message: String,
    pub tag_name: String,
    pub tag_message: String,
}

/// The release tag's name: `P<major>-<minor>`, with `-<identifier>` appended
/// when the version carries one.
pub open spec fn tag_name_spec(v: SemanticVersion) -> Seq<char> {
    let base = seq!['P'] + dec_digits(v.major as nat) + seq!['-'] + dec_digits(v.minor as nat);
    match v.ident {
        Some(id) => base + seq!['-'] + id@,
        None => base,
    }
}

/// Plans a release from the current merged version: bump the minor
/// component, reset the patch, and fix the texts to write. A current version
/// whose patch is zero sits exactly on a release point: nothing to release,
/// and no write is planned.
pub fn release_plan(current: &SemanticVersion) -> (r: Result<ReleasePlan, VersionError>)
    requires
        current.minor < usize::MAX,
    ensures
        r is Err <==> current.patch == 0,
        match r {
            Ok(plan) => {
                &&& plan.next.major == current.major
                &&& plan.next.minor == current.minor + 1
                &&& plan.next.patch == 0
                &&& plan.next.ident is None
                &&& plan.next.commit is None
                &&& plan.filename@ == "changes."@ + render_spec(plan.next)
                &&& plan.file_line@ == "Changes for version "@ + render_spec(plan.next)
                &&& plan.message@ == "release: "@ + render_spec(plan.next)
                &&& plan.tag_name@ == tag_name_spec(plan.next)
                &&& plan.tag_message@ == "Release "@ + tag_name_spec(plan.next)
            },
            Err(e) => e == VersionError::NothingToRelease,
        },
{
    if current.patch == 0 {
        return Err(VersionError::NothingToRelease);
    }
    let next = SemanticVersion::new(current.major, current.minor + 1, 0, None, None);
    let rendered = next.version_string();

    let mut filename = "changes.".to_owned();
    filename.append(rendered.as_str());

    let mut file_line = "Changes for version ".to_owned();
    file_line.append(rendered.as_str());

    let mut message = "release: ".to_owned();
    message.append(rendered.as_str());

    proof {
        reveal_strlit("P");
        reveal_strlit("-");
        reveal_strlit("Release ");
    }
    let mut tag_name = "P".to_owned();
    let major_digits = crate::numbers::render_number(next.major);
    tag_name.append(major_digits.as_str());
    tag_name.append("-");
    let minor_digits = crate::numbers::render_number(next.minor);
    tag_name.append(minor_digits.as_str());
    match &next.ident {
        Some(id) => {
            tag_name.append("-");
            tag_name.append(id.as_str());
        },
        None => {},
    }
    proof {
        assert(tag_name@ =~= tag_name_spec(next));
    }

    let mut tag_message = "Release ".to_owned();
    tag_message.append(tag_name.as_str());

    Ok(ReleasePlan { next, filename, file_line, message, tag_name, tag_message })
}

} // verus!
