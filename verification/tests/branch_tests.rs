use gitversion::branch::{branch_version, BranchVersion};

#[test]
fn main_is_master_like() {
    assert!(matches!(branch_version("main"), BranchVersion::Master));
    assert!(matches!(branch_version("master"), BranchVersion::Master));
    assert!(matches!(branch_version("release"), BranchVersion::Master));
}

#[test]
fn numeric_name_is_release() {
    match branch_version("2.0") {
        BranchVersion::Release(v) => {
            assert_eq!((v.major, v.minor, v.patch), (2, 0, 0));
            assert_eq!(v.ident, None);
        }
        other => panic!("expected a release category, got {:?}", other),
    }
}

#[test]
fn feature_prefix_keeps_the_rest() {
    match branch_version("feature/foo") {
        BranchVersion::Feature(name) => assert_eq!(name, "foo"),
        other => panic!("expected a feature category, got {:?}", other),
    }
}

#[test]
fn fix_prefix_keeps_the_rest() {
    match branch_version("fix/bar") {
        BranchVersion::Fix(name) => assert_eq!(name, "bar"),
        other => panic!("expected a fix category, got {:?}", other),
    }
}

#[test]
fn anything_else_is_other() {
    match branch_version("wip-stuff") {
        BranchVersion::Other(name) => assert_eq!(name, "wip-stuff"),
        other => panic!("expected the other category, got {:?}", other),
    }
}

#[test]
fn names_fold_to_lowercase() {
    assert!(matches!(branch_version("MAIN"), BranchVersion::Master));
    match branch_version("Feature/Login") {
        BranchVersion::Feature(name) => assert_eq!(name, "login"),
        other => panic!("expected a feature category, got {:?}", other),
    }
}

#[test]
fn version_wins_over_prefix() {
    // A name that parses as a version is a release, whatever its prefix.
    match branch_version("feature/v2") {
        BranchVersion::Release(v) => assert_eq!((v.major, v.minor, v.patch), (2, 0, 0)),
        other => panic!("expected a release category, got {:?}", other),
    }
}
