use shaperglot::exemplars::{parse_chars, parse_marks, split_words};
use shaperglot::language::LanguageRecord;
use shaperglot::providers::{
    has_complex_decomposed_base, positional_check, AfricanLatinProvider, BaseCheckProvider, PositionalProvider, SmallCapsProvider,
    TomlProvider,
};
use shaperglot::Provider;
use shaperglot::{CheckResult, CheckType, Checker, Language, Languages, Reporter, ResultCode, Score, SupportLevel};

fn record(id: &str, script: &str, bases: &str, auxiliaries: &str, marks: &str) -> LanguageRecord {
    LanguageRecord {
        id: id.to_string(),
        name: "Test".to_string(),
        script: script.to_string(),
        language_code: "xx".to_string(),
        bases: bases.to_string(),
        auxiliaries: auxiliaries.to_string(),
        marks: marks.to_string(),
    }
}

fn language(r: &LanguageRecord) -> Language {
    Language::from_record(r, &BaseCheckProvider::new(TomlProvider::empty()))
}

#[test]
fn words_split_on_unicode_white_space() {
    assert_eq!(split_words("  a\tb\u{3000}c  "), vec!["a", "b", "c"]);
    assert!(split_words("   ").is_empty());
}

#[test]
fn exemplars_unwrap_braces_and_keep_both_forms() {
    assert_eq!(parse_chars("a {ch} e\u{301} {}"), vec!["a", "ch", "e\u{301}", "\u{e9}"]);
    assert_eq!(parse_chars("{"), vec!["{"]);
    assert!(parse_chars("").is_empty());
}

#[test]
fn marks_get_a_dotted_circle() {
    assert_eq!(parse_marks("\u{301} \u{25CC}\u{300}"), vec!["\u{25CC}\u{301}", "\u{25CC}\u{300}"]);
}

#[test]
fn decomposed_marks_make_a_base_complex() {
    assert!(has_complex_decomposed_base("\u{e9}"));
    assert!(has_complex_decomposed_base("e\u{301}"));
    assert!(!has_complex_decomposed_base("e"));
}

#[test]
fn positional_pair_disables_the_feature_first() {
    let (before, after) = positional_check("\u{200D}", "\u{0628}", "", "fina");
    assert_eq!(before.text, "\u{200D}\u{0628}");
    assert_eq!(before.features, vec!["-fina".to_string()]);
    assert_eq!(after.text, "\u{200D}\u{0628}");
    assert!(after.features.is_empty());
}

#[test]
fn latin_language_gets_orthography_and_small_caps() {
    let lang = language(&record("xx_Latn", "Latn", "a b C", "\u{e9}", "\u{301}"));
    assert_eq!(lang.marks, vec!["\u{25CC}\u{301}".to_string()]);
    let names: Vec<&str> = lang.checks.iter().map(|c| c.name.as_str()).collect();
    assert_eq!(names, vec!["Mandatory orthography codepoints", "Auxiliary orthography codepoints", "Small caps for Latin letters"]);
    let mandatory = &lang.checks[0];
    assert_eq!(mandatory.weight, 80);
    assert_eq!(mandatory.description, "The font MUST support the following Test bases and marks: 'a', 'b', 'C', '\u{25CC}\u{301}'");
    assert_eq!(mandatory.implementations.len(), 2);
    match &mandatory.implementations[1] {
        CheckType::CodepointCoverage(c) => assert_eq!(c.strings, vec!["\u{301}".to_string()]),
        _ => panic!("expected a coverage check of the marks"),
    }
    let auxiliary = &lang.checks[1];
    assert_eq!(auxiliary.weight, 20);
    match &auxiliary.implementations[1] {
        CheckType::NoOrphanedMarks(o) => assert_eq!(o.test_strings[0].text, "\u{25CC}\u{e9}"),
        _ => panic!("expected a mark check of the auxiliaries"),
    }
    match &lang.checks[2].implementations[0] {
        CheckType::ShapingDiffers(d) => {
            let letters: Vec<&str> = d.pairs.iter().map(|p| p.0.text.as_str()).collect();
            assert_eq!(letters, vec!["a", "b", "\u{e9}"]);
            assert_eq!(d.pairs[0].1.features, vec!["smcp".to_string()]);
        },
        _ => panic!("expected a shaping check"),
    }
}

#[test]
fn arabic_language_gets_positional_forms() {
    let lang = language(&record("ar_Arab", "Arab", "\u{0628} \u{062F} \u{0621}", "", ""));
    let positional = lang.checks.last().unwrap();
    assert_eq!(positional.name, "Positional forms for Arabic letters");
    assert_eq!(positional.severity, ResultCode::Fail);
    let counts: Vec<usize> = positional
        .implementations
        .iter()
        .map(|t| match t {
            CheckType::ShapingDiffers(d) => d.pairs.len(),
            _ => 99,
        })
        .collect();
    assert_eq!(counts, vec![1, 1, 2]);
    match &positional.implementations[1] {
        CheckType::ShapingDiffers(d) => {
            assert_eq!(d.pairs[0].0.text, "\u{200D}\u{0628}\u{200D}");
            assert_eq!(d.pairs[0].0.features, vec!["-medi".to_string()]);
        },
        _ => panic!("expected a shaping check"),
    }
}

#[test]
fn language_without_exemplars_has_no_checks() {
    let lang = language(&record("xx_Cyrl", "Cyrl", "", "", ""));
    assert!(lang.checks.is_empty());
    let checker = Checker::from_parts(vec![], vec![], vec![], vec![]);
    let report = checker.check(&lang);
    assert!(report.is_unknown());
    assert_eq!(report.support_level(), SupportLevel::Indeterminate);
    assert_eq!(report.to_summary_string(&lang), "Cannot determine whether font supports xx_Cyrl (Test)");
}

#[test]
fn font_covering_nothing_stops_at_first_check() {
    let lang = language(&record("xx_Latn", "Latn", "A b", "c", ""));
    let checker = Checker::from_parts(vec![1, 2, 3], vec![], vec![], vec![]);
    let report = checker.check(&lang);
    assert_eq!(report.iter().len(), 1);
    assert_eq!(report.iter()[0].status, ResultCode::StopNow);
    assert_eq!(report.support_level(), SupportLevel::NotAttempted);
    assert!(report.to_summary_string(&lang).starts_with("Font does not attempt to support xx_Latn"));
}

#[test]
fn checking_twice_gives_the_same_report() {
    let lang = language(&record("xx_Latn", "Latn", "a b", "c", ""));
    let checker = Checker::from_parts(vec![9, 9], vec![], vec![], vec![(0x61, 1)]);
    let first = checker.check(&lang);
    let second = checker.check(&lang);
    assert_eq!(first.iter().len(), second.iter().len());
    for (a, b) in first.iter().iter().zip(second.iter().iter()) {
        assert_eq!(a.status, b.status);
        assert_eq!(a.problems.len(), b.problems.len());
        for (p, q) in a.problems.iter().zip(b.problems.iter()) {
            assert_eq!(p.message, q.message);
        }
    }
}

#[test]
fn summary_sentences_by_level() {
    let lang = language(&record("xx_Latn", "Latn", "a", "", ""));
    let mut r = Reporter::new();
    r.add(CheckResult {
        check_name: "a".to_string(),
        check_description: String::new(),
        score: Score::new(1, 1),
        weight: 80,
        problems: vec![],
        total_checks: 1,
        status: ResultCode::Pass,
    });
    assert_eq!(r.to_summary_string(&lang), "Font has complete support for xx_Latn (Test): 100%");
    let mut p = shaperglot::Problem::new("b", "c", "m".to_string());
    p.fixes.push(shaperglot::Fix { fix_type: "add_codepoint".to_string(), fix_thing: "q".to_string() });
    r.add(CheckResult {
        check_name: "b".to_string(),
        check_description: String::new(),
        score: Score::new(1, 3),
        weight: 20,
        problems: vec![p],
        total_checks: 3,
        status: ResultCode::Warn,
    });
    // (80 * 100000 + 20 * 33333) / 100 = 86666 thousandths: 87%
    assert_eq!(r.to_summary_string(&lang), "Font partially supports xx_Latn (Test): 87% (1 fixes required)");
}

#[test]
fn manual_checks_are_looked_up_by_id() {
    let extra = language(&record("xx_Latn", "Latn", "a", "", "")).checks;
    let table = TomlProvider { table: vec![("yy_Latn".to_string(), extra)] };
    let provider = BaseCheckProvider::new(table);
    let with = Language::from_record(&record("yy_Latn", "Cyrl", "a", "", ""), &provider);
    assert_eq!(with.checks.len(), 3);
    let without = Language::from_record(&record("zz_Latn", "Cyrl", "a", "", ""), &provider);
    assert_eq!(without.checks.len(), 1);
}

#[test]
fn database_finds_languages_by_id_and_name() {
    let languages = Languages::new();
    let english = languages.get_language("en_Latn").expect("en_Latn is listed");
    assert_eq!(english.script(), "Latn");
    assert_eq!(english.checks[0].name, "Mandatory orthography codepoints");
    let by_name = languages.get_language(english.name()).expect("found by name");
    assert_eq!(by_name.id(), english.id());
    assert!(languages.get_language("not a language").is_none());
    let arabic = languages.get_language("ar_Arab").expect("ar_Arab is listed");
    assert_eq!(arabic.checks.last().unwrap().name, "Positional forms for Arabic letters");
}

#[test]
fn database_marks_start_with_dotted_circle() {
    let languages = Languages::new();
    assert!(languages.iter().len() > 1000);
    let mut marks = 0;
    for language in languages.iter() {
        for mark in language.marks.iter() {
            assert!(mark.starts_with('\u{25CC}'));
            marks += 1;
        }
        if !language.bases.is_empty() {
            assert_eq!(language.checks[0].name, "Mandatory orthography codepoints");
        }
    }
    assert!(marks > 0);
}

#[test]
fn providers_through_the_trait() {
    let latin = language(&record("xx_Latn", "Latn", "a b", "", ""));
    let arabic = language(&record("ar_Arab", "Arab", "\u{0628}", "", ""));
    assert_eq!(SmallCapsProvider.checks_for(&latin).len(), 1);
    assert!(SmallCapsProvider.checks_for(&arabic).is_empty());
    assert!(PositionalProvider.checks_for(&latin).is_empty());
    let positional = PositionalProvider.checks_for(&arabic);
    assert_eq!(positional.len(), 1);
    assert_eq!(positional[0].implementations.len(), 3);
    assert!(AfricanLatinProvider.checks_for(&latin).is_empty());
}

#[test]
fn half_percentages_round_to_even() {
    let lang = language(&record("xx_Latn", "Latn", "a", "", ""));
    let warn = |score: Score| {
        let mut r = Reporter::new();
        r.add(CheckResult {
            check_name: "a".to_string(),
            check_description: String::new(),
            score,
            weight: 10,
            problems: vec![shaperglot::Problem::new("a", "c", "m".to_string())],
            total_checks: 200,
            status: ResultCode::Warn,
        });
        r
    };
    // 1/200 is 0.5%, 3/200 is 1.5%
    assert_eq!(warn(Score::new(1, 200)).to_summary_string(&lang), "Font partially supports xx_Latn (Test): 0% (0 fixes required)");
    assert_eq!(warn(Score::new(3, 200)).to_summary_string(&lang), "Font partially supports xx_Latn (Test): 2% (0 fixes required)");
}

#[test]
fn default_database_is_the_listed_one() {
    let languages = Languages::default();
    assert!(languages.get_language("fr_Latn").is_some());
}
