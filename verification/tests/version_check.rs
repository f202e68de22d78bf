use torc::version_check::{compare_versions, get_server_version, parse_version, VersionMismatchSeverity, VersionReply};

#[test]
fn test_parse_version() {
    assert_eq!(parse_version("0.8.0"), Some((0, 8, 0)));
    assert_eq!(parse_version("1.2.3"), Some((1, 2, 3)));
    assert_eq!(parse_version("v1.2.3"), Some((1, 2, 3)));
    assert_eq!(parse_version("1.2.3-beta"), Some((1, 2, 3)));
    assert_eq!(parse_version("invalid"), None);
}

#[test]
fn test_compare_versions_exact_match() {
    assert_eq!(compare_versions("0.8.0", "0.8.0"), VersionMismatchSeverity::NoMismatch);
}

#[test]
fn test_compare_versions_patch_diff() {
    assert_eq!(compare_versions("0.8.1", "0.8.0"), VersionMismatchSeverity::Patch);
    assert_eq!(compare_versions("0.8.0", "0.8.1"), VersionMismatchSeverity::Patch);
}

#[test]
fn test_compare_versions_minor_client_higher() {
    assert_eq!(compare_versions("0.9.0", "0.8.0"), VersionMismatchSeverity::Minor);
}

#[test]
fn test_compare_versions_minor_server_higher() {
    assert_eq!(compare_versions("0.8.0", "0.9.0"), VersionMismatchSeverity::Patch);
}

#[test]
fn test_compare_versions_major_diff() {
    assert_eq!(compare_versions("1.0.0", "0.8.0"), VersionMismatchSeverity::Major);
    assert_eq!(compare_versions("0.8.0", "1.0.0"), VersionMismatchSeverity::Major);
}

#[test]
fn the_server_version_is_read_from_a_string_or_a_version_member() {
    assert_eq!(get_server_version(Some(VersionReply::Text("0.8.1".to_string()))), Some("0.8.1".to_string()));
    let wrapped = VersionReply::Object(vec![
        ("build".to_string(), None),
        ("version".to_string(), Some("1.2.3".to_string())),
    ]);
    assert_eq!(get_server_version(Some(wrapped)), Some("1.2.3".to_string()));
    let numeric = VersionReply::Object(vec![("version".to_string(), None)]);
    assert_eq!(get_server_version(Some(numeric)), None);
    let unnamed = VersionReply::Object(vec![("name".to_string(), Some("torc".to_string()))]);
    assert_eq!(get_server_version(Some(unnamed)), None);
    assert_eq!(get_server_version(Some(VersionReply::Other)), None);
    assert_eq!(get_server_version(None), None);
}
