use gitversion::branch::{branch_version, BranchVersion};
use gitversion::history::{head_version, CommitRecord, PatchVersion};
use gitversion::merge::{main_version, nmerge};
use gitversion::release::release_plan;
use gitversion::semver::SemanticVersion;
use gitversion::VersionError;

fn head_143() -> PatchVersion {
    PatchVersion::new(
        SemanticVersion::new(1, 4, 0, None, None),
        3,
        None,
        Some(String::from("headhead")),
    )
}

#[test]
fn nmerge_zero_is_unconstrained() {
    assert_eq!(nmerge(0, 5), Ok(5));
    assert_eq!(nmerge(5, 0), Ok(5));
    assert_eq!(nmerge(0, 0), Ok(0));
}

#[test]
fn nmerge_equal_values_agree() {
    assert_eq!(nmerge(3, 3), Ok(3));
}

#[test]
fn nmerge_different_values_mismatch() {
    assert_eq!(nmerge(3, 4), Err(VersionError::VersionMismatch));
}

#[test]
fn master_takes_the_head_version() {
    let v = main_version(BranchVersion::Master, &head_143()).unwrap();
    assert_eq!(v.version_string(), "1.4.3");
    assert_eq!(v.commit, Some(String::from("headhead")));
}

#[test]
fn feature_stamps_its_name() {
    let v = main_version(BranchVersion::Feature(String::from("login")), &head_143()).unwrap();
    assert_eq!(v.version_string(), "1.4.3-login");
}

#[test]
fn fix_stamps_its_name() {
    let v = main_version(BranchVersion::Fix(String::from("crash")), &head_143()).unwrap();
    assert_eq!(v.version_string(), "1.4.3-crash");
}

#[test]
fn other_stamps_the_literal_other() {
    let v = main_version(BranchVersion::Other(String::from("wip-stuff")), &head_143()).unwrap();
    assert_eq!(v.version_string(), "1.4.3-other");
}

#[test]
fn release_branch_must_agree_with_history() {
    let bv = SemanticVersion::new(2, 0, 0, None, None);
    let e = main_version(BranchVersion::Release(bv), &head_143()).unwrap_err();
    assert_eq!(e, VersionError::VersionMismatch);
}

#[test]
fn release_branch_fills_unconstrained_components() {
    let bv = SemanticVersion::new(1, 0, 0, None, None);
    let v = main_version(BranchVersion::Release(bv), &head_143()).unwrap();
    assert_eq!(v.version_string(), "1.4.3");
    assert_eq!(v.ident, None);
}

#[test]
fn release_plan_bumps_minor_and_names_everything() {
    let current = SemanticVersion::new(1, 4, 3, None, None);
    let plan = release_plan(&current).unwrap();
    assert_eq!(plan.next.version_string(), "1.5.0");
    assert_eq!(plan.filename, "changes.1.5.0");
    assert_eq!(plan.file_line, "Changes for version 1.5.0");
    assert_eq!(plan.message, "release: 1.5.0");
    assert_eq!(plan.tag_name, "P1-5");
    assert_eq!(plan.tag_message, "Release P1-5");
}

#[test]
fn release_plan_refuses_a_release_point() {
    let current = SemanticVersion::new(1, 5, 0, None, None);
    let e = release_plan(&current).unwrap_err();
    assert_eq!(e, VersionError::NothingToRelease);
}

#[test]
fn error_messages_are_distinct() {
    assert_eq!(VersionError::HistoryTooDeep.message(), "too many commits");
    assert_eq!(VersionError::VersionMismatch.message(), "major version mismatch");
    assert_eq!(VersionError::NothingToRelease.message(), "patch version is not zero");
}

#[test]
fn end_to_end_derivation() {
    // Branch "main", three commits since the tag "1.4.0" on an ancestor.
    let commits = vec![
        CommitRecord { message: String::from("c0"), short_id: Some(String::from("headhead")), tag: None },
        CommitRecord { message: String::from("c1"), short_id: Some(String::from("c1c1c1c")), tag: None },
        CommitRecord { message: String::from("c2"), short_id: Some(String::from("c2c2c2c")), tag: None },
        CommitRecord {
            message: String::from("c3"),
            short_id: Some(String::from("c3c3c3c")),
            tag: Some(String::from("1.4.0")),
        },
    ];
    let head = head_version(&commits, Some(String::from("headhead"))).unwrap();

    let v = main_version(branch_version("main"), &head).unwrap();
    assert_eq!(v.version_string(), "1.4.3");

    let head2 = head_version(&commits, Some(String::from("headhead"))).unwrap();
    let v2 = main_version(branch_version("feature/login"), &head2).unwrap();
    assert_eq!(v2.version_string(), "1.4.3-login");

    let head3 = head_version(&commits, Some(String::from("headhead"))).unwrap();
    let e = main_version(branch_version("2.0"), &head3).unwrap_err();
    assert_eq!(e, VersionError::VersionMismatch);
}
