use cobra::requirement::{
    exact_version, parse_dependency, parse_package_spec, version_matches, version_satisfies,
    wants_latest,
};

fn parsed(text: &str) -> (String, String) {
    parse_dependency(text).expect("a requirement always parses")
}

fn pair(name: &str, spec: &str) -> (String, String) {
    (name.to_string(), spec.to_string())
}

#[test]
fn parenthesised_constraint_is_split_from_the_name() {
    assert_eq!(parsed("req (>=1.0)"), pair("req", ">=1.0"));
}

#[test]
fn extras_and_marker_are_dropped() {
    assert_eq!(parsed("req[extra]; python>'3'"), pair("req", "*"));
}

#[test]
fn inline_pin_keeps_its_operator() {
    assert_eq!(parsed("req==2.5"), pair("req", "==2.5"));
}

#[test]
fn operators_are_tried_in_their_fixed_order() {
    assert_eq!(parsed("a>=1,==2"), pair("a>=1,", "==2"));
    assert_eq!(parsed("a >= 1.0"), pair("a", ">= 1.0"));
    assert_eq!(parsed("a<=3"), pair("a", "<=3"));
    assert_eq!(parsed("a~=1.4"), pair("a", "~=1.4"));
    assert_eq!(parsed("a!=2"), pair("a", "!=2"));
}

#[test]
fn closing_parentheses_are_stripped_as_a_run() {
    assert_eq!(parsed("  pkg ( ==1.0 )) ; extra == 'x'"), pair("pkg", "==1.0"));
    assert_eq!(parsed("pkg("), pair("pkg", ""));
}

#[test]
fn bare_name_gets_the_wildcard() {
    assert_eq!(parsed("  numpy  "), pair("numpy", "*"));
    assert_eq!(parsed(""), pair("", "*"));
    assert_eq!(parsed("\u{2003}six\u{00a0}"), pair("six", "*"));
}

#[test]
fn package_argument_forms() {
    assert_eq!(parse_package_spec("flask@2.0").unwrap(), pair("flask", "2.0"));
    assert_eq!(parse_package_spec("flask==2.0").unwrap(), pair("flask", "==2.0"));
    assert_eq!(parse_package_spec("flask").unwrap(), pair("flask", "*"));
    assert_eq!(parse_package_spec("a@b@c").unwrap(), pair("a", "b@c"));
    assert_eq!(parse_package_spec("a==b==c").unwrap(), pair("a", "==b==c"));
    assert_eq!(parse_package_spec("a==1@2").unwrap(), pair("a==1", "2"));
}

#[test]
fn latest_is_asked_for_by_wildcard_or_nothing() {
    assert!(wants_latest("*"));
    assert!(wants_latest(""));
    assert!(!wants_latest("==1.0"));
    assert!(!wants_latest(" "));
}

#[test]
fn leading_operators_are_stripped_for_the_index_path() {
    assert_eq!(exact_version("==1.2.3"), "1.2.3");
    assert_eq!(exact_version(">=2.0"), "2.0");
    assert_eq!(exact_version("<=2.0"), "2.0");
    assert_eq!(exact_version("~=2.0"), "2.0");
    assert_eq!(exact_version("^2.0"), "2.0");
    assert_eq!(exact_version("====1.0"), "1.0");
    assert_eq!(exact_version("==>=^ 1.0 "), "1.0");
    assert_eq!(exact_version(">===1.0"), "==1.0");
    assert_eq!(exact_version("1.0"), "1.0");
    assert_eq!(exact_version("!=1.0"), "!=1.0");
}

#[test]
fn registry_satisfaction() {
    assert!(version_satisfies("1.0", "*"));
    assert!(version_satisfies("1.0", "==1.0"));
    assert!(!version_satisfies("1.1", "==1.0"));
    assert!(version_satisfies("1.0", "1.0"));
    assert!(!version_satisfies("2.0", ">=1.0"));
    assert!(version_satisfies(">=1.0", ">=1.0"));
    assert!(!version_satisfies("==1.0", "==1.0"));
    assert!(version_satisfies("", "=="));
}

#[test]
fn manifest_agreement_accepts_lower_bounds() {
    assert!(version_matches("1.0", "*"));
    assert!(version_matches("1.0", "==1.0"));
    assert!(!version_matches("1.1", "==1.0"));
    assert!(version_matches("0.1", ">=1.0"));
    assert!(version_matches("1.0", "1.0"));
    assert!(!version_matches("1.0", "<=2.0"));
}
