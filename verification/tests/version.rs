use borneo::location::Location;
use borneo::version::{read_version, verify_version, VersionError, BUILD_FILE};

#[test]
fn the_version_is_read_up_to_the_dash() {
    assert_eq!(BUILD_FILE, "build.txt");
    assert_eq!(read_version(Some("1.9.0-release-358\n")), Some("1.9.0".to_string()));
    assert_eq!(read_version(Some("2.1.0")), Some("2.1.0".to_string()));
    assert_eq!(read_version(Some("")), None);
    assert_eq!(read_version(Some(" \n")), None);
    assert_eq!(read_version(None), None);
}

#[test]
fn the_expected_version_is_verified() {
    let home = Location::of_text("/opt/kotlin");
    assert!(verify_version(Some("1.9.0-release-358\n"), &home, "1.9.0").is_ok());
    assert!(verify_version(Some("-x"), &home, "").is_ok());
}

#[test]
fn another_version_is_a_mismatch() {
    let home = Location::of_text("/opt/kotlin");
    let error = verify_version(Some("1.9.0-release-358\n"), &home, "2.0.0").unwrap_err();
    assert!(matches!(error, VersionError::Mismatch { .. }));
    assert_eq!(
        error.message("/opt/kotlin"),
        "kotlin version mismatch: expected 2.0.0, found 1.9.0 at /opt/kotlin"
    );
    assert_eq!(error.home().base, b"/opt/kotlin".to_vec());
}

#[test]
fn a_version_that_cannot_be_told_is_unknown() {
    let home = Location::of_text("/opt/kotlin").join("x");
    for file in [None, Some(""), Some("\n ")] {
        let error = verify_version(file, &home, "2.0.0").unwrap_err();
        assert!(matches!(error, VersionError::Unknown { .. }));
        assert_eq!(error.message("/k"), "cannot determine kotlin version at /k");
        assert_eq!(error.home().below, vec!["x".to_string()]);
    }
}

#[test]
fn a_version_with_a_dash_is_never_verified() {
    let home = Location::of_text("/opt/kotlin");
    let error = verify_version(Some("2.0.0-RC1"), &home, "2.0.0-RC1").unwrap_err();
    assert_eq!(
        error.message("/k"),
        "kotlin version mismatch: expected 2.0.0-RC1, found 2.0.0 at /k"
    );
    assert!(verify_version(Some("2 0"), &home, "2 0").is_err());
}

#[test]
fn at_most_one_version_is_verified() {
    let home = Location::of_text("/opt/kotlin");
    let verified: Vec<&str> = ["1.9.0", "1.9", "1.9.00", "2.0.0", ""]
        .into_iter()
        .filter(|v| verify_version(Some("1.9.0-release"), &home, v).is_ok())
        .collect();
    assert_eq!(verified, vec!["1.9.0"]);
}

#[test]
fn names_are_joined_onto_a_location() {
    let place = Location::at(vec![0xff, b'/']).join("a");
    let names = vec!["x".to_string(), "y".to_string(), "z".to_string()];
    let below = place.join_from(&names, 1);
    assert_eq!(below.base, vec![0xff, b'/']);
    assert_eq!(below.below, vec!["a", "y", "z"]);
    assert_eq!(place.join_from(&names, 3).below, vec!["a"]);
    assert_eq!(below.clone().below, below.below);
}
