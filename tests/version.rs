use openwork::version::{is_engine_version_safe, is_version_safe, parse_semver_like, MIN_SAFE_ENGINE_VERSION};

#[test]
fn parses_semver_like_versions() {
    assert_eq!(parse_semver_like("1.2.3"), Some((1, 2, 3)));
    assert_eq!(parse_semver_like("opencode v1.2.3-beta"), Some((1, 2, 3)));
    assert_eq!(parse_semver_like("v2.0.0"), Some((2, 0, 0)));
    assert_eq!(parse_semver_like("not-a-version"), None);
}

#[test]
fn detects_safe_versions_relative_to_minimum() {
    // the minimum safe engine version is 1.1.10
    assert_eq!(is_engine_version_safe("1.1.10"), Some(true));
    assert_eq!(is_engine_version_safe("1.1.11"), Some(true));
    assert_eq!(is_engine_version_safe("1.2.0"), Some(true));
    assert_eq!(is_engine_version_safe("1.1.9"), Some(false));
    assert_eq!(is_engine_version_safe("1.0.0"), Some(false));
}

#[test]
fn parse_defaults_missing_fields_to_zero() {
    assert_eq!(parse_semver_like("1.2"), Some((1, 2, 0)));
    assert_eq!(parse_semver_like("7"), Some((7, 0, 0)));
    assert_eq!(parse_semver_like("tool 10.20.30.40 extra"), Some((10, 20, 30)));
}

#[test]
fn parse_rejects_empty_fields_and_overflow() {
    assert_eq!(parse_semver_like("v1."), None);
    assert_eq!(parse_semver_like("1..2"), None);
    assert_eq!(parse_semver_like("4294967296.1.1"), None);
    assert_eq!(parse_semver_like("4294967295.0.1"), Some((4294967295, 0, 1)));
    assert_eq!(parse_semver_like(""), None);
    assert_eq!(parse_semver_like("no digits"), None);
}

#[test]
fn parse_takes_only_the_first_run() {
    assert_eq!(parse_semver_like(".5 then 3.4.5"), Some((5, 0, 0)));
    assert_eq!(parse_semver_like("build 12-3.4"), Some((12, 0, 0)));
}

#[test]
fn version_gate_compares_triples_in_order() {
    assert_eq!(is_version_safe("1.1.10", "1.1.10"), Some(true));
    assert_eq!(is_version_safe("1.1.9", "1.1.10"), Some(false));
    assert_eq!(is_version_safe("bogus", "1.1.10"), None);
    assert_eq!(is_version_safe("1.1.10", "bogus"), None);
    assert_eq!(is_version_safe("2.0.0", "1.9.9"), Some(true));
    assert_eq!(is_version_safe("1.9.9", "2.0.0"), Some(false));
    assert_eq!(MIN_SAFE_ENGINE_VERSION, "1.1.10");
}
