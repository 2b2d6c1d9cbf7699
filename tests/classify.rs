use pluely::classify::{map_api_error_message, ApiConfigError};

fn rule(includes: &str, error: &str) -> ApiConfigError {
    ApiConfigError::new(includes.to_string(), error.to_string())
}

const GENERIC: &str =
    "Something went wrong. Please try switching to a different model or contact support.";

#[test]
fn rate_limit_rule_matches_status_text() {
    let rules = vec![rule("429", "rate limited"), rule("", "generic")];
    let got = map_api_error_message(&rules, &["HTTP 429 Too Many Requests".to_string()]);
    assert_eq!(got, "rate limited");
}

#[test]
fn unmatched_source_falls_back_to_catch_all() {
    let rules = vec![rule("429", "rate limited"), rule("", "generic")];
    let got = map_api_error_message(&rules, &["connection refused".to_string()]);
    assert_eq!(got, "generic");
}

#[test]
fn empty_rule_list_gives_generic_message() {
    let got = map_api_error_message(&[], &["anything".to_string(), "else".to_string()]);
    assert_eq!(got, GENERIC);
    let none = map_api_error_message(&[], &[]);
    assert_eq!(none, GENERIC);
}

#[test]
fn sources_are_tried_before_rules() {
    let rules = vec![rule("alpha", "first rule"), rule("beta", "second rule")];
    let sources = vec!["beta happened".to_string(), "alpha happened".to_string()];
    assert_eq!(map_api_error_message(&rules, &sources), "second rule");
}

#[test]
fn first_matching_rule_wins_within_a_source() {
    let rules = vec![rule("time", "timeout"), rule("out", "outage")];
    let sources = vec!["timed out after a long time".to_string()];
    assert_eq!(map_api_error_message(&rules, &sources), "timeout");
}

#[test]
fn matching_is_case_sensitive() {
    let rules = vec![rule("Quota", "quota exceeded"), rule("   ", "catch all")];
    let sources = vec!["quota reached".to_string()];
    assert_eq!(map_api_error_message(&rules, &sources), "catch all");
}

#[test]
fn without_catch_all_first_rule_is_used() {
    let rules = vec![rule("x-1", "first"), rule("x-2", "second")];
    let sources = vec!["nothing".to_string()];
    assert_eq!(map_api_error_message(&rules, &sources), "first");
}

#[test]
fn whitespace_pattern_matches_only_where_it_occurs() {
    let rules = vec![rule(" ", "blank"), rule("boom", "exploded")];
    assert_eq!(map_api_error_message(&rules, &["bigboom".to_string()]), "exploded");
    assert_eq!(map_api_error_message(&rules, &["big boom".to_string()]), "blank");
    assert_eq!(map_api_error_message(&rules, &["quiet".to_string()]), "blank");
}
