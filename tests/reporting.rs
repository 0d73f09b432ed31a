use shaperglot::reporter::ProblemContext;
use shaperglot::{CheckResult, Fix, Problem, Reporter, ResultCode, Score, SupportLevel};

fn fix(kind: &str, thing: &str) -> Fix {
    Fix { fix_type: kind.to_string(), fix_thing: thing.to_string() }
}

fn result(name: &str, status: ResultCode, score: Score, weight: u8, problems: Vec<Problem>, total: usize) -> CheckResult {
    CheckResult {
        check_name: name.to_string(),
        check_description: String::new(),
        score,
        weight,
        problems,
        total_checks: total,
        status,
    }
}

fn problem_with(fixes: Vec<Fix>) -> Problem {
    let mut p = Problem::new("check", "code", "message".to_string());
    p.fixes = fixes;
    p
}

#[test]
fn result_code_labels() {
    assert_eq!(ResultCode::Pass.label(), "PASS");
    assert_eq!(ResultCode::Warn.label(), "WARN");
    assert_eq!(ResultCode::Fail.label(), "FAIL");
    assert_eq!(ResultCode::Skip.label(), "SKIP");
    assert_eq!(ResultCode::StopNow.label(), "STOP");
    assert_eq!(ResultCode::default(), ResultCode::Pass);
}

#[test]
fn problem_new_is_plain() {
    let p = Problem::new("Check", "skip", "Check skipped: x".to_string());
    assert_eq!(p.check_name, "Check");
    assert_eq!(p.code, "skip");
    assert_eq!(p.message, "Check skipped: x");
    assert!(!p.terminal);
    assert!(p.fixes.is_empty());
    assert!(matches!(p.context, ProblemContext::Empty));
}

#[test]
fn problems_equal_by_name_and_message() {
    let a = Problem::new("Check", "one", "same".to_string());
    let b = Problem::new("Check", "two", "same".to_string());
    let c = Problem::new("Check", "one", "other".to_string());
    assert!(a == b);
    assert!(a != c);
}

#[test]
fn summary_result_sentences() {
    let ok = result("Mandatory", ResultCode::Pass, Score::new(1, 1), 80, vec![], 3);
    assert_eq!(ok.summary_result(), "Mandatory: no problems found");
    let bad = result("Mandatory", ResultCode::Fail, Score::new(0, 1), 80, vec![problem_with(vec![])], 3);
    assert_eq!(bad.summary_result(), "Mandatory check failed");
}

#[test]
fn empty_reporter_is_indeterminate() {
    let r = Reporter::new();
    assert!(r.is_unknown());
    assert!(!r.is_success());
    assert_eq!(r.support_level(), SupportLevel::Indeterminate);
    assert_eq!(r.score(), None);
    assert_eq!(r.fixes_required(), 0);
}

#[test]
fn unique_fixes_deduplicate_and_group() {
    let mut r = Reporter::new();
    r.add(result(
        "a",
        ResultCode::Fail,
        Score::new(0, 1),
        20,
        vec![
            problem_with(vec![fix("add_codepoint", "é"), fix("add_anchor", "a/acute")]),
            problem_with(vec![fix("add_codepoint", "é"), fix("add_codepoint", "ñ")]),
        ],
        2,
    ));
    r.add(result("b", ResultCode::Warn, Score::new(1, 2), 10, vec![problem_with(vec![fix("add_anchor", "a/acute")])], 2));
    let groups = r.unique_fixes();
    assert_eq!(groups.len(), 2);
    assert_eq!(groups[0].0, "add_codepoint");
    assert_eq!(groups[0].1, vec!["é".to_string(), "ñ".to_string()]);
    assert_eq!(groups[1].0, "add_anchor");
    assert_eq!(groups[1].1, vec!["a/acute".to_string()]);
    assert_eq!(r.fixes_required(), 3);
    assert!(r.is_nearly_success(3));
    assert!(!r.is_nearly_success(2));
    assert_eq!(r.iter_problems().len(), 3);
}

#[test]
fn score_is_weighted_mean_in_thousandths() {
    let mut r = Reporter::new();
    r.add(result("a", ResultCode::Pass, Score::new(1, 1), 80, vec![], 5));
    r.add(result("b", ResultCode::Skip, Score::new(1, 2), 10, vec![problem_with(vec![])], 1));
    // (80 * 100000 + 10 * 50000) / 90
    assert_eq!(r.score(), Some(94_444));
}

#[test]
fn pass_and_sole_skip_is_supported_above_94_percent() {
    let mut r = Reporter::new();
    r.add(result("Mandatory orthography codepoints", ResultCode::Pass, Score::new(1, 1), 80, vec![], 26));
    r.add(result(
        "Small caps for Latin letters",
        ResultCode::Skip,
        Score::new(1, 2),
        10,
        vec![Problem::new("Small caps for Latin letters", "skip", "Check skipped: smcp".to_string())],
        1,
    ));
    assert_eq!(r.support_level(), SupportLevel::Supported);
    assert!(r.score().unwrap() >= 94_000);
}

#[test]
fn all_pass_is_complete() {
    let mut r = Reporter::new();
    r.add(result("a", ResultCode::Pass, Score::new(1, 1), 80, vec![], 26));
    r.add(result("b", ResultCode::Pass, Score::new(26, 26), 10, vec![], 26));
    assert!(r.is_success());
    assert_eq!(r.fixes_required(), 0);
    assert_eq!(r.support_level(), SupportLevel::Complete);
}

#[test]
fn fail_is_unsupported_with_fixes() {
    let mut r = Reporter::new();
    r.add(result("Mandatory orthography codepoints", ResultCode::Pass, Score::new(1, 1), 80, vec![], 28));
    r.add(result(
        "Positional forms for Arabic letters",
        ResultCode::Fail,
        Score::new(0, 2),
        20,
        vec![problem_with(vec![fix("add_feature", "init rule")]), problem_with(vec![fix("add_feature", "fina rule")])],
        2,
    ));
    assert_eq!(r.support_level(), SupportLevel::Unsupported);
    assert!(r.fixes_required() > 0);
}

#[test]
fn one_missing_auxiliary_is_incomplete() {
    let mut r = Reporter::new();
    r.add(result("Mandatory orthography codepoints", ResultCode::Pass, Score::new(1, 1), 80, vec![], 26));
    r.add(result(
        "Auxiliary orthography codepoints",
        ResultCode::Warn,
        Score::new(9, 10),
        20,
        vec![problem_with(vec![fix("add_codepoint", "é")])],
        10,
    ));
    assert_eq!(r.support_level(), SupportLevel::Incomplete);
    assert_eq!(r.score(), Some(98_000));
}

#[test]
fn stop_now_is_not_attempted() {
    let mut r = Reporter::new();
    r.add(result("Mandatory orthography codepoints", ResultCode::StopNow, Score::new(0, 1), 80, vec![problem_with(vec![])], 26));
    assert_eq!(r.support_level(), SupportLevel::NotAttempted);
}

#[test]
fn result_text_lists_messages() {
    let r = result(
        "Mandatory",
        ResultCode::Fail,
        Score::new(0, 1),
        80,
        vec![Problem::new("x", "c", "first".to_string()), Problem::new("x", "c", "second".to_string())],
        2,
    );
    assert_eq!(r.to_text(), "Mandatory:\n  first\n  second");
}
