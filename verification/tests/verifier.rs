use auditor::model::{Match, UnauthorizedRule};
use auditor::unauthorized::{build_probe_url, classify_response, code_allowed};

fn policy(codes: Vec<u16>, body_rules: Vec<(&str, &str)>) -> UnauthorizedRule {
    UnauthorizedRule {
        status_code: codes,
        response_body: body_rules
            .into_iter()
            .map(|(r, v)| Match { match_rule: r.to_string(), value: v.to_string() })
            .collect(),
    }
}

#[test]
fn allow_listed_status_flags_once_regardless_of_body() {
    let rule = policy(vec![200, 302], vec![("Contains", "nothing like the body")]);
    let flagged = classify_response(&rule, 200, "any body at all", "http://h/x");
    assert_eq!(flagged.len(), 1);
    assert_eq!(flagged[0].code, 200);
    assert_eq!(flagged[0].url, "http://h/x");
    assert_eq!(flagged[0].body, "any body at all");
}

#[test]
fn status_check_short_circuits_matching_body_rules() {
    // Even when every body rule would flag, an allow-listed status code
    // yields exactly one entry.
    let rule = policy(vec![200], vec![("NotContains", "x"), ("Regex", ".*")]);
    let flagged = classify_response(&rule, 200, "body", "u");
    assert_eq!(flagged.len(), 1);
}

#[test]
fn contains_rule_tests_value_against_body() {
    // Mind the orientation: the rule flags when the configured value
    // contains the response body, not the other way round.
    let rule = policy(vec![], vec![("Contains", "full login page text")]);
    assert_eq!(classify_response(&rule, 404, "login page", "u").len(), 1);
    assert_eq!(classify_response(&rule, 404, "something else", "u").len(), 0);
    // A body that merely contains the value does not flag.
    let rule2 = policy(vec![], vec![("Contains", "login")]);
    assert_eq!(classify_response(&rule2, 404, "the login page", "u").len(), 0);
}

#[test]
fn regex_and_not_contains_rules_flag_unconditionally() {
    // Both rule kinds flag whatever the body holds; this is the policy
    // language's documented behaviour, not an oversight.
    let rule = policy(vec![], vec![("Regex", "never-matching-pattern-zzz")]);
    assert_eq!(classify_response(&rule, 404, "body", "u").len(), 1);
    let rule2 = policy(vec![], vec![("NotContains", "body")]);
    assert_eq!(classify_response(&rule2, 404, "body", "u").len(), 1);
}

#[test]
fn unrecognised_rule_names_never_flag() {
    let rule = policy(vec![], vec![("Equals", "body"), ("", "x")]);
    assert_eq!(classify_response(&rule, 404, "body", "u").len(), 0);
}

#[test]
fn one_entry_per_flagging_body_rule() {
    let rule = policy(
        vec![],
        vec![("NotContains", "a"), ("Equals", "b"), ("Regex", "c")],
    );
    let flagged = classify_response(&rule, 500, "body", "http://h/e");
    assert_eq!(flagged.len(), 2);
    assert!(flagged.iter().all(|f| f.code == 500 && f.url == "http://h/e"));
}

#[test]
fn code_allowed_is_membership() {
    assert!(code_allowed(&vec![200, 301, 403], 301));
    assert!(!code_allowed(&vec![200, 301, 403], 404));
    assert!(!code_allowed(&vec![], 200));
}

#[test]
fn probe_url_is_prefix_plus_endpoint() {
    assert_eq!(build_probe_url("http://h:8080", "/api/list"), "http://h:8080/api/list");
    assert_eq!(build_probe_url("", "/x"), "/x");
}
