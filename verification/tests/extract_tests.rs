use gitversion::extract::version_from_string;
use gitversion::semver::SemanticVersion;

fn triple(v: &SemanticVersion) -> (usize, usize, usize) {
    (v.major, v.minor, v.patch)
}

#[test]
fn parses_dotted_triple_with_letter() {
    let v = version_from_string("v1.2.3", None).unwrap();
    assert_eq!(triple(&v), (1, 2, 3));
    assert_eq!(v.ident, None);
    assert_eq!(v.commit, None);
}

#[test]
fn parses_single_group() {
    let v = version_from_string("release-7", None).unwrap();
    assert_eq!(triple(&v), (7, 0, 0));
}

#[test]
fn parses_two_groups() {
    let v = version_from_string("r1.2", None).unwrap();
    assert_eq!(triple(&v), (1, 2, 0));
}

#[test]
fn parses_dashed_triple() {
    let v = version_from_string("release-1-2-3", None).unwrap();
    assert_eq!(triple(&v), (1, 2, 3));
}

#[test]
fn parses_mixed_separators() {
    let v = version_from_string("1-2.3", None).unwrap();
    assert_eq!(triple(&v), (1, 2, 3));
}

#[test]
fn no_digits_no_version() {
    assert!(version_from_string("nightly", None).is_none());
    assert!(version_from_string("", None).is_none());
    assert!(version_from_string("feature/foo", None).is_none());
}

#[test]
fn folds_case_before_matching() {
    let v = version_from_string("V1.2.3", None).unwrap();
    assert_eq!(triple(&v), (1, 2, 3));
}

#[test]
fn scans_from_first_digit() {
    // The scan is tolerant: it starts at the first digit wherever it stands.
    let v = version_from_string("feature/foo2", None).unwrap();
    assert_eq!(triple(&v), (2, 0, 0));
}

#[test]
fn double_separator_ends_the_groups() {
    let v = version_from_string("1..2", None).unwrap();
    assert_eq!(triple(&v), (1, 0, 0));
}

#[test]
fn trailing_separator_is_ignored() {
    let v = version_from_string("1.2.", None).unwrap();
    assert_eq!(triple(&v), (1, 2, 0));
}

#[test]
fn attaches_commit_identifier() {
    let v = version_from_string("1.0", Some(String::from("abc1234"))).unwrap();
    assert_eq!(triple(&v), (1, 0, 0));
    assert_eq!(v.commit, Some(String::from("abc1234")));
}

#[test]
fn oversized_group_reads_as_zero() {
    let v = version_from_string("v99999999999999999999999.2", None).unwrap();
    assert_eq!(triple(&v), (0, 2, 0));
}

#[test]
fn renders_and_reparses_exactly() {
    let v = SemanticVersion::new(10, 42, 7, None, None);
    let s = v.version_string();
    assert_eq!(s, "10.42.7");
    let back = version_from_string(&s, None).unwrap();
    assert_eq!(triple(&back), (10, 42, 7));
}

#[test]
fn renders_identifier_suffix() {
    let v = SemanticVersion::new(1, 4, 3, Some(String::from("login")), None);
    assert_eq!(v.version_string(), "1.4.3-login");
}
