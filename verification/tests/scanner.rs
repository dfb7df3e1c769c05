use auditor::enums::RuleCondition;
use auditor::model::{empty_rule, Rule, SourceFile};
use auditor::rulecheck::{split_lines, RuleCheck, ScanError};

fn rule(keyword: &str, note: &str, condition: RuleCondition) -> Rule {
    Rule { keyword: keyword.to_string(), note: note.to_string(), condition }
}

fn file(path: &str, content: &str) -> SourceFile {
    SourceFile { path: path.to_string(), content: content.to_string() }
}

#[test]
fn end_to_end_single_hit_first_rule_wins() {
    let rules = vec![
        rule("eval(", "dangerous eval", RuleCondition::Contain),
        rule("\\$_GET\\[", "unsanitized input", RuleCondition::Regex),
    ];
    let files = vec![file("a.php", "echo eval($_GET['x']);")];
    let report = RuleCheck::start(&rules, &files).unwrap();
    assert_eq!(report.counters.total_lines, 1);
    assert_eq!(report.counters.non_blank_lines, 1);
    assert_eq!(report.hits.len(), 1);
    assert_eq!(report.hits[0].rule_note, "dangerous eval");
    assert_eq!(report.hits[0].line_number, 1);
    assert_eq!(report.hits[0].file_path, "a.php");
    assert_eq!(report.hits[0].raw_line, "echo eval($_GET['x']);");
}

#[test]
fn first_matching_rule_decides_the_note() {
    let rules = vec![
        rule("nothing-here", "zero", RuleCondition::Contain),
        rule("exec", "first", RuleCondition::Contain),
        rule("exec", "second", RuleCondition::Contain),
    ];
    let (hit, note) = RuleCheck::rule_match_hit(&rules, "system exec call");
    assert!(hit);
    assert_eq!(note, "first");
}

#[test]
fn regex_rule_matches_through_the_engine() {
    let rules = vec![rule("ev.l\\(", "pattern hit", RuleCondition::Regex)];
    let (hit, note) = RuleCheck::rule_match_hit(&rules, "echo eval(1);");
    assert!(hit);
    assert_eq!(note, "pattern hit");
    let (miss, empty) = RuleCheck::rule_match_hit(&rules, "echo exec(1);");
    assert!(!miss);
    assert_eq!(empty, "");
}

#[test]
fn invalid_regex_is_fatal_with_its_index() {
    let rules = vec![
        rule("fine", "a", RuleCondition::Contain),
        rule("(unclosed", "b", RuleCondition::Regex),
    ];
    let files = vec![file("a.txt", "anything")];
    match RuleCheck::start(&rules, &files) {
        Err(ScanError::InvalidRegex(i)) => assert_eq!(i, 1),
        _ => panic!("an invalid regex pattern must abort the scan"),
    }
}

#[test]
fn blank_lines_never_hit_even_with_empty_keyword() {
    let rules = vec![rule("", "matches everything", RuleCondition::Contain)];
    let files = vec![file("a.txt", "   \n\t\nx\n")];
    let report = RuleCheck::start(&rules, &files).unwrap();
    assert_eq!(report.counters.total_lines, 3);
    assert_eq!(report.counters.non_blank_lines, 1);
    assert_eq!(report.hits.len(), 1);
    assert_eq!(report.hits[0].line_number, 3);
    assert_eq!(report.hits[0].raw_line, "x");
}

#[test]
fn counters_sum_over_files() {
    let rules = empty_rule();
    let files = vec![
        file("a.txt", "one\ntwo\n\n"),
        file("b.txt", ""),
        file("c.txt", "three\n \nfour"),
    ];
    let report = RuleCheck::start(&rules, &files).unwrap();
    assert_eq!(report.counters.total_lines, 3 + 0 + 3);
    assert_eq!(report.counters.non_blank_lines, 2 + 0 + 2);
    assert_eq!(report.hits.len(), 0);
}

#[test]
fn counters_equal_when_no_blank_line() {
    let rules = empty_rule();
    let files = vec![file("a.txt", "a\nb"), file("b.txt", "c")];
    let report = RuleCheck::start(&rules, &files).unwrap();
    assert_eq!(report.counters.total_lines, report.counters.non_blank_lines);
}

#[test]
fn hits_keep_file_order_and_line_order() {
    let rules = vec![rule("x", "mark", RuleCondition::Contain)];
    let files = vec![file("a.txt", "x1\nok\nx2"), file("b.txt", "x3")];
    let report = RuleCheck::start(&rules, &files).unwrap();
    let got: Vec<(String, usize)> = report
        .hits
        .iter()
        .map(|h| (h.file_path.clone(), h.line_number))
        .collect();
    assert_eq!(
        got,
        vec![
            ("a.txt".to_string(), 1),
            ("a.txt".to_string(), 3),
            ("b.txt".to_string(), 1)
        ]
    );
}

#[test]
fn hit_text_is_trimmed_but_matching_sees_the_raw_line() {
    let rules = vec![rule("  lead", "note", RuleCondition::Contain)];
    let files = vec![file("a.txt", "  leading spaces  ")];
    let report = RuleCheck::start(&rules, &files).unwrap();
    assert_eq!(report.hits.len(), 1);
    assert_eq!(report.hits[0].raw_line, "leading spaces");
}

#[test]
fn split_lines_handles_crlf_and_final_line() {
    let lines = split_lines("a\r\nb\nc");
    assert_eq!(lines, vec!["a".to_string(), "b".to_string(), "c".to_string()]);
    let lines2 = split_lines("a\n");
    assert_eq!(lines2, vec!["a".to_string()]);
    let lines3 = split_lines("");
    assert!(lines3.is_empty());
}

#[test]
fn empty_rule_is_empty() {
    assert!(empty_rule().is_empty());
}

#[test]
fn per_file_scan_rejects_bad_rules() {
    let rules = vec![rule("[", "broken", RuleCondition::Regex)];
    let f = file("a.txt", "line");
    assert!(RuleCheck::check_file_checked(&rules, &f).is_none());
    let good = vec![rule("li", "ok", RuleCondition::Contain)];
    let scan = RuleCheck::check_file_checked(&good, &f).unwrap();
    assert_eq!(scan.total_lines, 1);
    assert_eq!(scan.non_blank_lines, 1);
    assert_eq!(scan.hits.len(), 1);
}
