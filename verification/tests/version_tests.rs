use myterm::version::{parse_version, is_newer_version, parse_component};

#[test]
fn newer_patch_version_is_newer() {
    assert_eq!(is_newer_version("1.2.0", "1.1.9"), true);
}

#[test]
fn shorter_equal_version_is_not_newer() {
    assert_eq!(is_newer_version("1.0", "1.0.0"), false);
}

#[test]
fn major_bump_beats_large_minor() {
    assert_eq!(is_newer_version("2", "1.99.99"), true);
}

#[test]
fn longer_equal_version_is_not_newer() {
    assert_eq!(is_newer_version("1.0.0", "1.0"), false);
}

#[test]
fn equal_versions_are_not_newer_either_way() {
    assert_eq!(is_newer_version("3.4.5", "3.4.5"), false);
    assert_eq!(is_newer_version("v3.4.5", "3.4.5"), false);
}

#[test]
fn older_version_is_not_newer() {
    assert_eq!(is_newer_version("1.1.9", "1.2.0"), false);
}

#[test]
fn parse_version_strips_v_and_whitespace() {
    assert_eq!(parse_version("v1.2.3"), vec![1, 2, 3]);
    assert_eq!(parse_version("  v2.1 "), vec![2, 1]);
}

#[test]
fn parse_version_treats_non_numeric_components_as_zero() {
    assert_eq!(parse_version("1.2.0-beta"), vec![1, 2, 0]);
    assert_eq!(parse_version("a.b"), vec![0, 0]);
}

#[test]
fn parse_version_of_empty_string_is_one_zero_component() {
    assert_eq!(parse_version(""), vec![0]);
}

#[test]
fn parse_component_handles_digits_and_overflow() {
    assert_eq!(parse_component("42"), 42);
    assert_eq!(parse_component("0042"), 42);
    assert_eq!(parse_component("4294967295"), 4294967295);
    assert_eq!(parse_component("4294967296"), 0);
    assert_eq!(parse_component("99999999999999999999"), 0);
    assert_eq!(parse_component(""), 0);
    assert_eq!(parse_component("1x"), 0);
}

#[test]
fn leading_zeros_compare_numerically() {
    assert_eq!(is_newer_version("1.010", "1.9"), true);
}

#[test]
fn one_leading_plus_is_accepted_in_a_component() {
    assert_eq!(parse_component("+5"), 5);
    assert_eq!(parse_component("+"), 0);
    assert_eq!(parse_component("++5"), 0);
    assert_eq!(parse_component("-5"), 0);
    assert_eq!(is_newer_version("1.+10", "1.9"), true);
}
