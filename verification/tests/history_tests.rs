use gitversion::history::{head_version, CommitRecord, PatchVersion};
use gitversion::semver::SemanticVersion;
use gitversion::VersionError;

fn plain(msg: &str) -> CommitRecord {
    CommitRecord { message: String::from(msg), short_id: Some(String::from("0000000")), tag: None }
}

fn tagged(msg: &str, tag: &str, short: &str) -> CommitRecord {
    CommitRecord {
        message: String::from(msg),
        short_id: Some(String::from(short)),
        tag: Some(String::from(tag)),
    }
}

#[test]
fn stops_at_first_qualifying_commit() {
    let commits = vec![
        plain("work in progress"),
        plain("more work"),
        tagged("some change", "1.0.0", "c2c2c2c"),
        tagged("older change", "2.0.0", "c3c3c3c"),
    ];
    let pv = head_version(&commits, Some(String::from("headhead"))).unwrap();
    let rv = pv.release.unwrap();
    assert_eq!((rv.major, rv.minor, rv.patch), (1, 0, 0));
    assert_eq!(rv.commit, Some(String::from("c2c2c2c")));
    assert_eq!(pv.patch_count, 2);
    assert_eq!(pv.patch_short, Some(String::from("headhead")));
    assert_eq!(pv.ident, None);
}

#[test]
fn no_release_anywhere_counts_the_whole_chain() {
    let commits = vec![plain("a"), plain("b"), plain("c")];
    let pv = head_version(&commits, Some(String::from("headhead"))).unwrap();
    assert!(pv.release.is_none());
    assert_eq!(pv.patch_count, 3);
    assert_eq!(pv.patch_short, Some(String::from("headhead")));
}

#[test]
fn empty_chain_is_distance_zero() {
    let commits: Vec<CommitRecord> = vec![];
    let pv = head_version(&commits, None).unwrap();
    assert!(pv.release.is_none());
    assert_eq!(pv.patch_count, 0);
}

#[test]
fn release_message_wins_over_later_tags() {
    let commits = vec![
        plain("tweak"),
        CommitRecord {
            message: String::from("Release: 1.2.3 cut from main"),
            short_id: Some(String::from("relrelre")),
            tag: None,
        },
        tagged("older", "9.9.9", "c2c2c2c"),
    ];
    let pv = head_version(&commits, Some(String::from("headhead"))).unwrap();
    let rv = pv.release.unwrap();
    assert_eq!((rv.major, rv.minor, rv.patch), (1, 2, 3));
    assert_eq!(rv.commit, Some(String::from("relrelre")));
    assert_eq!(pv.patch_count, 1);
}

#[test]
fn marker_without_version_falls_back_to_the_tag() {
    let commits = vec![CommitRecord {
        message: String::from("release: none planned"),
        short_id: Some(String::from("c0c0c0c")),
        tag: Some(String::from("0.9")),
    }];
    let pv = head_version(&commits, Some(String::from("headhead"))).unwrap();
    let rv = pv.release.unwrap();
    assert_eq!((rv.major, rv.minor, rv.patch), (0, 9, 0));
    assert_eq!(pv.patch_count, 0);
}

#[test]
fn current_commit_as_release_point_is_distance_zero() {
    let commits = vec![tagged("cut", "1.4.0", "c0c0c0c"), plain("older")];
    let pv = head_version(&commits, Some(String::from("c0c0c0c"))).unwrap();
    let rv = pv.release.unwrap();
    assert_eq!((rv.major, rv.minor, rv.patch), (1, 4, 0));
    assert_eq!(pv.patch_count, 0);
}

#[test]
fn unparsable_tags_do_not_qualify() {
    let commits = vec![tagged("work", "nightly", "c0c0c0c"), tagged("older", "1.1", "c1c1c1c")];
    let pv = head_version(&commits, None).unwrap();
    let rv = pv.release.unwrap();
    assert_eq!((rv.major, rv.minor, rv.patch), (1, 1, 0));
    assert_eq!(pv.patch_count, 1);
}

#[test]
fn walk_at_the_bound_still_succeeds() {
    let mut commits = Vec::new();
    for _ in 0..4096 {
        commits.push(plain("work"));
    }
    let pv = head_version(&commits, None).unwrap();
    assert!(pv.release.is_none());
    assert_eq!(pv.patch_count, 4096);
}

#[test]
fn walk_past_the_bound_fails() {
    let mut commits = Vec::new();
    for _ in 0..4097 {
        commits.push(plain("work"));
    }
    let e = head_version(&commits, None).unwrap_err();
    assert_eq!(e, VersionError::HistoryTooDeep);
}

#[test]
fn release_point_at_the_bound_is_still_found() {
    let mut commits = Vec::new();
    for _ in 0..4096 {
        commits.push(plain("work"));
    }
    commits.push(tagged("cut", "3.1.4", "deepdeep"));
    let pv = head_version(&commits, None).unwrap();
    let rv = pv.release.unwrap();
    assert_eq!((rv.major, rv.minor, rv.patch), (3, 1, 4));
    assert_eq!(pv.patch_count, 4096);
}

#[test]
fn semver_advances_patch_by_distance() {
    let pv = PatchVersion::new(
        SemanticVersion::new(1, 4, 0, None, None),
        3,
        None,
        Some(String::from("headhead")),
    );
    let v = pv.semver();
    assert_eq!((v.major, v.minor, v.patch), (1, 4, 3));
    assert_eq!(v.commit, Some(String::from("headhead")));
}

#[test]
fn semver_without_release_point_is_all_patches() {
    let pv = PatchVersion {
        release: None,
        patch_count: 5,
        patch_short: Some(String::from("headhead")),
        ident: None,
    };
    let v = pv.semver();
    assert_eq!((v.major, v.minor, v.patch), (0, 0, 5));
}
