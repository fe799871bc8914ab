use lode::version_req::{is_range, lenient_readings, parse_lenient, verdict};

#[test]
fn star_matches_anything() {
    assert!(lode::version_req::matches("mc1.20.1-0.5.13-fabric", "*"));
}

#[test]
fn plain_version_is_exact() {
    assert!(lode::version_req::matches("0.5.8", "0.5.8"));
    assert!(!lode::version_req::matches("0.5.9", "0.5.8"));
}

#[test]
fn caret_and_tilde_ranges() {
    assert!(lode::version_req::matches("0.5.13", "^0.5.8"));
    assert!(!lode::version_req::matches("0.6.0", "~0.5.8"));
    assert!(lode::version_req::matches("0.5.20", "~0.5.0"));
}

#[test]
fn ranges_apply_to_semver_with_build_metadata() {
    assert!(lode::version_req::matches("1.0.36+mc1.20.1", "^1.0.0"));
}

#[test]
fn a_bare_version_is_compared_as_text() {
    // Equal as semantic versions up to build metadata, but not the same text.
    assert!(!lode::version_req::matches("1.0.0+a", "1.0.0"));
    assert!(lode::version_req::matches("not a version", "not a version"));
}

#[test]
fn a_range_is_told_by_its_first_character_or_a_comma() {
    assert!(is_range("^1.0.0"));
    assert!(is_range("~1"));
    assert!(is_range(">=1, <2"));
    assert!(is_range("=1.0.0"));
    assert!(is_range("1.0, 2.0"));
    assert!(!is_range("1.0.0"));
    assert!(!is_range("latest"));
}

#[test]
fn the_verdict_weighs_the_range_only_where_the_text_leaves_it_open() {
    assert!(verdict("1.0.0", "*", false));
    assert!(verdict("1.0.0", "1.0.0", false));
    assert!(!verdict("1.0.1", "1.0.0", true));
    assert!(verdict("1.0.1", "^1.0.0", true));
    assert!(!verdict("1.0.1", "^1.0.0", false));
}

#[test]
fn a_mod_version_is_read_leniently() {
    assert_eq!(parse_lenient("1.2.3").as_deref(), Some("1.2.3"));
    assert_eq!(parse_lenient("1.2.3+mc1.20").as_deref(), Some("1.2.3+mc1.20"));
    assert_eq!(parse_lenient("fabric").as_deref(), None);
    assert_eq!(parse_lenient("1.2").as_deref(), Some("1.2.0"));
    assert_eq!(parse_lenient("mc1.20.1-0.5.13-fabric").as_deref(), Some("1.20.1"));
    assert_eq!(
        lenient_readings("mc1.20.1-0.5.13-fabric"),
        vec!["mc1.20.1-0.5.13-fabric", "1.20.1", "0.5.13"]
    );
    assert_eq!(lenient_readings("v7 2..5.1.9"), vec!["v7 2..5.1.9", "2.5.1"]);
}
