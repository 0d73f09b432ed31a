use shaperglot::checks::shaping_differs::{FeaturesOptional, IgnoreNotdefs};
use shaperglot::checks::{CodepointCoverage, NoOrphanedMarks, ShapingDiffers};
use shaperglot::reporter::ProblemContext;
use shaperglot::{Check, CheckType, Checker, ResultCode, ScoringStrategy, Score, ShapedGlyph, ShapingInput};

fn glyph(id: u32, cluster: u32, x_offset: i32, y_offset: i32) -> ShapedGlyph {
    ShapedGlyph { glyph_id: id, cluster, x_offset, y_offset, x_advance: 500, y_advance: 0 }
}

fn checker_with(names: &[&str], mappings: Vec<(u32, u32)>, features: &[&str]) -> Checker {
    Checker::from_parts(
        vec![0, 1, 2, 3],
        names.iter().map(|s| s.to_string()).collect(),
        features.iter().map(|s| s.to_string()).collect(),
        mappings,
    )
}

#[test]
fn shaping_input_describe_forms() {
    let plain = ShapingInput::new_simple("ab".to_string());
    assert_eq!(plain.describe(), "shaping the text 'ab'");
    let featured = ShapingInput::new_with_feature("ab".to_string(), "smcp");
    assert_eq!(featured.describe(), "shaping the text 'ab' with features: smcp");
    let full = ShapingInput {
        text: "ab".to_string(),
        features: vec!["-init".to_string(), "liga".to_string()],
        language: Some("ar".to_string()),
    };
    assert_eq!(full.describe(), "shaping the text 'ab' in language 'ar' with features: -init, liga");
    assert_eq!(full.char_at(1), Some('b'));
    assert_eq!(full.char_at(2), None);
}

#[test]
fn reverse_cmap_keeps_smallest_codepoint() {
    let checker = checker_with(&[], vec![(0x62, 7), (0x41, 7), (0x42, 8), (0x41, 9)], &[]);
    assert_eq!(checker.codepoint_for(7), Some(0x41));
    assert_eq!(checker.codepoint_for(8), Some(0x42));
    assert_eq!(checker.codepoint_for(9), None);
    assert_eq!(checker.glyph_for(0x41), Some(7));
    assert_eq!(checker.glyph_for(0x43), None);
}

#[test]
fn unreadable_font_is_refused() {
    assert!(Checker::new(&[0, 1, 2, 3]).is_err());
    assert!(Checker::new(&[]).is_err());
}

#[test]
fn unreadable_font_shapes_nothing() {
    let checker = checker_with(&[], vec![], &[]);
    assert!(ShapingInput::new_simple("a".to_string()).shape(&checker).is_none());
}

#[test]
fn coverage_reports_missing_strings_once() {
    let check = CodepointCoverage::new(
        vec!["a".to_string(), "b".to_string(), "a".to_string(), "c".to_string()],
        "base".to_string(),
        true,
    );
    assert_eq!(check.strings, vec!["a".to_string(), "b".to_string(), "c".to_string()]);
    let runs = vec![Some(vec![glyph(3, 0, 0, 0)]), Some(vec![glyph(0, 0, 0, 0)]), None];
    let problems = check.problems_for(&runs);
    assert_eq!(problems.len(), 1);
    let p = &problems[0];
    assert_eq!(p.code, "bases-missing");
    assert_eq!(p.message, "The following base characters are missing from the font: b, c");
    assert!(!p.terminal);
    assert_eq!(p.fixes.len(), 2);
    assert_eq!(p.fixes[0].fix_type, "add_codepoint");
    assert_eq!(p.fixes[1].fix_thing, "c");
    assert!(matches!(&p.context, ProblemContext::Glyphs(g) if g.len() == 2));
    assert_eq!(check.describe(), "Checks that all the following codepoints are covered in the font: a, b, c");
}

#[test]
fn coverage_all_missing_is_terminal() {
    let check = CodepointCoverage::new(vec!["a".to_string()], "base".to_string(), true);
    let problems = check.problems_for(&vec![Some(vec![glyph(0, 0, 0, 0)])]);
    assert!(problems[0].terminal);
    let covered = check.problems_for(&vec![Some(vec![glyph(4, 0, 0, 0)])]);
    assert!(covered.is_empty());
}

#[test]
fn dotted_circle_before_mark_is_reported() {
    // U+25CC is glyph 5, U+0941 (a nonspacing vowel sign) glyph 7.
    let checker = checker_with(&[".notdef", "a", "b", "c", "d", "uni25CC", "ka", "uMatra"], vec![(0x25CC, 5), (0x0915, 6), (0x0941, 7)], &[]);
    let check = NoOrphanedMarks::new(vec![ShapingInput::new_simple("\u{0915}\u{0941}".to_string())], true);
    let runs = vec![Some(vec![glyph(6, 0, 0, 0), glyph(5, 1, 0, 0), glyph(7, 1, 0, 0)])];
    let problems = check.problems_for(&checker, &runs);
    assert_eq!(problems.len(), 1);
    assert_eq!(problems[0].code, "dotted-circle-produced");
    assert_eq!(problems[0].message, "Shaper produced a dotted circle when shaping the text '\u{0915}\u{0941}'");
    assert_eq!(problems[0].fixes[0].fix_type, "add_feature");
}

#[test]
fn literal_dotted_circle_is_not_reported() {
    let checker = checker_with(&[], vec![(0x25CC, 5), (0x0301, 7)], &[]);
    let check = NoOrphanedMarks::new(vec![ShapingInput::new_simple("\u{25CC}\u{0301}".to_string())], true);
    let runs = vec![Some(vec![glyph(5, 0, 0, 0), glyph(7, 1, 120, 300)])];
    assert!(check.problems_for(&checker, &runs).is_empty());
}

#[test]
fn mark_at_origin_is_orphaned() {
    let checker = checker_with(&[".notdef", "e"], vec![(0x65, 1), (0x0301, 9)], &[]);
    let check = NoOrphanedMarks::new(vec![ShapingInput::new_simple("e\u{0301}".to_string())], true);
    let runs = vec![Some(vec![glyph(1, 0, 0, 0), glyph(9, 1, 0, 0)])];
    let problems = check.problems_for(&checker, &runs);
    assert_eq!(problems.len(), 1);
    assert_eq!(problems[0].code, "orphaned-mark");
    assert_eq!(problems[0].message, "Shaper didn't attach Glyph #9 to e when shaping the text 'e\u{0301}'");
    assert_eq!(problems[0].fixes[0].fix_thing, "e/Glyph #9");
    let attached = vec![Some(vec![glyph(1, 0, 0, 0), glyph(9, 1, -200, 10)])];
    assert!(check.problems_for(&checker, &attached).is_empty());
}

#[test]
fn notdef_reported_without_orthography() {
    let checker = checker_with(&[], vec![], &[]);
    let check = NoOrphanedMarks::new(vec![ShapingInput::new_simple("xy".to_string())], false);
    let runs = vec![Some(vec![glyph(3, 0, 0, 0), glyph(0, 1, 0, 0)])];
    let problems = check.problems_for(&checker, &runs);
    assert_eq!(problems.len(), 1);
    assert_eq!(problems[0].code, "notdef-produced");
    assert_eq!(problems[0].fixes[0].fix_thing, "y");
    let with_orthography = NoOrphanedMarks::new(vec![ShapingInput::new_simple("xy".to_string())], true);
    assert!(with_orthography.problems_for(&checker, &runs).is_empty());
}

#[test]
fn same_shaping_is_reported() {
    let zwj_beh = "\u{200D}\u{0628}\u{200D}".to_string();
    let pair = (ShapingInput::new_with_feature(zwj_beh.clone(), "-medi"), ShapingInput::new_simple(zwj_beh));
    let check = ShapingDiffers::new(vec![pair], FeaturesOptional(false), IgnoreNotdefs(true));
    let same = vec![(Some(vec![glyph(3, 1, 0, 0)]), Some(vec![glyph(3, 1, 0, 0)]))];
    let problems = check.problems_for(&same);
    assert_eq!(problems.len(), 1);
    assert_eq!(problems[0].code, "shaping-same");
    assert_eq!(problems[0].fixes[0].fix_type, "add_feature");
    let differ = vec![(Some(vec![glyph(3, 1, 0, 0)]), Some(vec![glyph(4, 1, 0, 0)]))];
    assert!(check.problems_for(&differ).is_empty());
    let notdefs = vec![(Some(vec![glyph(0, 1, 0, 0)]), Some(vec![glyph(0, 1, 0, 0)]))];
    assert!(check.problems_for(&notdefs).is_empty());
}

#[test]
fn optional_features_skip_when_missing() {
    let pair = (ShapingInput::new_simple("a".to_string()), ShapingInput::new_with_feature("a".to_string(), "smcp"));
    let check = ShapingDiffers::new(vec![pair], FeaturesOptional(true), IgnoreNotdefs(true));
    let without = checker_with(&[], vec![], &["liga"]);
    assert_eq!(
        check.should_skip(&without),
        Some("The following features are needed for this check, but are missing: smcp".to_string())
    );
    let with = checker_with(&[], vec![], &["smcp"]);
    assert_eq!(check.should_skip(&with), None);
}

#[test]
fn sole_skipped_implementation_scores_half() {
    let pair = (ShapingInput::new_simple("a".to_string()), ShapingInput::new_with_feature("a".to_string(), "smcp"));
    let check = Check {
        name: "Small caps for Latin letters".to_string(),
        severity: ResultCode::Warn,
        description: String::new(),
        scoring_strategy: ScoringStrategy::Continuous,
        weight: 10,
        implementations: vec![CheckType::ShapingDiffers(ShapingDiffers::new(vec![pair], FeaturesOptional(true), IgnoreNotdefs(true)))],
    };
    let result = check.execute(&checker_with(&[], vec![], &[]));
    assert_eq!(result.status, ResultCode::Skip);
    assert_eq!(result.score, Score::new(1, 2));
    assert_eq!(result.total_checks, 1);
    assert_eq!(result.problems.len(), 1);
    assert_eq!(result.problems[0].message, "Check skipped: The following features are needed for this check, but are missing: smcp");
}

#[test]
fn uncovered_font_stops_all_or_nothing_check() {
    let check = Check {
        name: "Mandatory orthography codepoints".to_string(),
        severity: ResultCode::Fail,
        description: String::new(),
        scoring_strategy: ScoringStrategy::AllOrNothing,
        weight: 80,
        implementations: vec![CheckType::CodepointCoverage(CodepointCoverage::new(
            vec!["a".to_string(), "b".to_string()],
            "base".to_string(),
            true,
        ))],
    };
    let result = check.execute(&checker_with(&[], vec![], &[]));
    assert_eq!(result.status, ResultCode::StopNow);
    assert_eq!(result.total_checks, 2);
    assert_eq!(result.score, Score::new(0, 1));
}

#[test]
fn continuous_score_counts_problems() {
    let check = Check {
        name: "Auxiliary orthography codepoints".to_string(),
        severity: ResultCode::Warn,
        description: String::new(),
        scoring_strategy: ScoringStrategy::Continuous,
        weight: 20,
        implementations: vec![
            CheckType::CodepointCoverage(CodepointCoverage::new(vec!["é".to_string()], "auxiliary".to_string(), false)),
            CheckType::CodepointCoverage(CodepointCoverage::new(vec!["ñ".to_string()], "auxiliary".to_string(), false)),
        ],
    };
    let result = check.execute(&checker_with(&[], vec![], &[]));
    assert_eq!(result.total_checks, 2);
    assert_eq!(result.problems.len(), 2);
    assert_eq!(result.status, ResultCode::Warn);
    assert_eq!(result.score, Score::new(0, 2));
}

#[test]
fn empty_check_is_skipped() {
    let check = Check {
        name: "Empty".to_string(),
        severity: ResultCode::Fail,
        description: String::new(),
        scoring_strategy: ScoringStrategy::Continuous,
        weight: 20,
        implementations: vec![CheckType::NoOrphanedMarks(NoOrphanedMarks::new(vec![], true))],
    };
    let result = check.execute(&checker_with(&[], vec![], &[]));
    assert_eq!(result.status, ResultCode::Skip);
    assert_eq!(result.total_checks, 0);
    assert_eq!(result.score, Score::new(1, 1));
}

#[test]
fn one_missing_base_is_not_terminal() {
    let check = CodepointCoverage::new(vec!["A".to_string(), "b".to_string()], "base".to_string(), true);
    let runs = vec![Some(vec![glyph(0, 0, 0, 0)]), Some(vec![glyph(2, 0, 0, 0)])];
    let problems = check.problems_for(&runs);
    assert_eq!(problems.len(), 1);
    assert_eq!(problems[0].message, "The following base characters are missing from the font: A");
    assert!(!problems[0].terminal);
}

#[test]
fn dotted_circle_fixes_count_towards_nearly_success() {
    let checker = checker_with(&[], vec![(0x25CC, 5), (0x0941, 7)], &[]);
    let check = NoOrphanedMarks::new(
        vec![ShapingInput::new_simple("\u{0915}\u{0941}".to_string()), ShapingInput::new_simple("\u{0916}\u{0941}".to_string())],
        true,
    );
    let runs = vec![
        Some(vec![glyph(6, 0, 0, 0), glyph(5, 1, 0, 0), glyph(7, 1, 0, 0)]),
        Some(vec![glyph(8, 0, 0, 0), glyph(5, 1, 0, 0), glyph(7, 1, 0, 0)]),
    ];
    let problems = check.problems_for(&checker, &runs);
    assert_eq!(problems.len(), 2);
    let mut reporter = shaperglot::Reporter::new();
    reporter.add(shaperglot::CheckResult {
        check_name: "marks".to_string(),
        check_description: String::new(),
        score: Score::new(0, 2),
        weight: 20,
        problems,
        total_checks: 2,
        status: ResultCode::Warn,
    });
    assert_eq!(reporter.fixes_required(), 2);
    assert!(reporter.is_nearly_success(5));
    assert!(!reporter.is_nearly_success(1));
}

#[test]
fn fewer_problems_score_no_lower() {
    let unreadable = checker_with(&[], vec![], &[]);
    let coverage = |s: &str| CheckType::CodepointCoverage(CodepointCoverage::new(vec![s.to_string()], "auxiliary".to_string(), false));
    let build = |second: CheckType| Check {
        name: "Auxiliary orthography codepoints".to_string(),
        severity: ResultCode::Warn,
        description: String::new(),
        scoring_strategy: ScoringStrategy::Continuous,
        weight: 20,
        implementations: vec![coverage("a"), second],
    };
    let two = build(coverage("b")).execute(&unreadable);
    let marks = CheckType::NoOrphanedMarks(NoOrphanedMarks::new(vec![ShapingInput::new_simple("b".to_string())], true));
    let one = build(marks).execute(&unreadable);
    assert_eq!(two.problems.len(), 2);
    assert_eq!(one.problems.len(), 1);
    assert_eq!(two.score, Score::new(0, 2));
    assert_eq!(one.score, Score::new(1, 2));
}

#[test]
fn describe_lists_inputs() {
    let check = NoOrphanedMarks::new(
        vec![ShapingInput::new_simple("a".to_string()), ShapingInput::new_simple("b".to_string())],
        true,
    );
    assert_eq!(check.describe(), "Checks that, when shaping the text 'a' and shaping the text 'b', no marks are left unattached");
    let pair = (ShapingInput::new_simple("a".to_string()), ShapingInput::new_with_feature("a".to_string(), "smcp"));
    let differs = ShapingDiffers::new(vec![pair], FeaturesOptional(true), IgnoreNotdefs(true));
    assert_eq!(
        differs.describe(),
        "in the following situations, different results are produced: shaping the text 'a' versus shaping the text 'a' with features: smcp"
    );
}

#[test]
fn repeated_strings_are_tested_once() {
    let mut check = CodepointCoverage::new(vec![], "base".to_string(), false);
    check.strings = vec!["x".to_string(), "y".to_string(), "x".to_string()];
    let problems = check.problems_for(&vec![None, None]);
    assert_eq!(problems.len(), 1);
    assert_eq!(problems[0].fixes.len(), 2);
    assert_eq!(problems[0].fixes[0].fix_thing, "x");
    assert_eq!(problems[0].fixes[1].fix_thing, "y");
    assert!(problems[0].terminal == false);
    let (found, tested) = check.execute(&checker_with(&[], vec![], &[]));
    assert_eq!(tested, 2);
    assert_eq!(found[0].fixes.len(), 2);
}
