//! Providers turn a language's exemplar characters into checks.
use vstd::prelude::*;

use crate::checks::codepoint_coverage::{plain_input, CoverageView};
use crate::checks::no_orphaned_marks::OrphansView;
use crate::checks::shaping_differs::{DiffersView, FeaturesOptional, IgnoreNotdefs};
use crate::checks::{
    check_types_view, checks_view, duplicate_checks, Check, CheckType, CheckTypeView, CheckView, CodepointCoverage, NoOrphanedMarks,
    ScoringStrategy, ShapingDiffers,
};
use crate::language::{Language, LanguageView};
use crate::reporter::ResultCode;
use crate::shaping::{inputs_view, InputView, ShapingInput};
use crate::text::{clone_strings, dedup, join, join_strings, push_char, string_of, strings_view};
use crate::unicode::{
    category_group, category_group_of, general_category, general_category_of, joining_type, joining_type_of, nfd, nfd_of,
    JoiningKind, LETTER_GROUP, LOWERCASE_LETTER, MARK_GROUP,
};

verus! {

/// Gives the checks that apply to a language.
pub trait Provider {
    /// The checks that the provider gives a language, in the order they run.
    spec fn provided(&self, language: LanguageView) -> Seq<CheckView>;

    /// The checks for the language, in the order they run.
    fn checks_for(&self, language: &Language) -> (r: Vec<Check>)
        ensures
            checks_view(r@) == self.provided(language@),
    ;
}

/// Whether the canonical decomposition of a cluster holds a mark.
pub open spec fn is_complex(s: Seq<char>) -> bool {
    exists|i: int| 0 <= i < nfd_of(s).len() && category_group_of(nfd_of(s)[i]) == MARK_GROUP
}

/// Whether the canonical decomposition of a cluster holds a mark.
pub fn has_complex_decomposed_base(base: &str) -> (r: bool)
    ensures
        r == is_complex(base@),
{
    let decomposed = nfd(base);
    let n = decomposed.as_str().unicode_len();
    let mut i: usize = 0;
    while i < n
        invariant
            i <= n,
            n == nfd_of(base@).len(),
            decomposed@ == nfd_of(base@),
            forall|j: int| 0 <= j < i ==> category_group_of(nfd_of(base@)[j]) != MARK_GROUP,
        decreases n - i,
    {
        let c = decomposed.as_str().get_char(i);
        if category_group(c) == MARK_GROUP {
            return true;
        }
        i = i + 1;
    }
    false
}

/// Each item between single quotes.
pub open spec fn quoted(items: Seq<Seq<char>>) -> Seq<Seq<char>> {
    items.map_values(|s: Seq<char>| "'"@ + s + "'"@)
}

/// The text with every dotted circle taken out.
pub open spec fn without_dotted_circles(s: Seq<char>) -> Seq<char>
    decreases s.len(),
{
    if s.len() == 0 {
        s
    } else if s.last() == '\u{25CC}' {
        without_dotted_circles(s.drop_last())
    } else {
        without_dotted_circles(s.drop_last()).push(s.last())
    }
}

/// The complex clusters among the first `n`, in order.
pub open spec fn complex_prefix(items: Seq<Seq<char>>, n: int) -> Seq<Seq<char>>
    decreases n,
{
    if n <= 0 {
        Seq::empty()
    } else if is_complex(items[n - 1]) {
        complex_prefix(items, n - 1).push(items[n - 1])
    } else {
        complex_prefix(items, n - 1)
    }
}

/// The complex clusters, in order.
pub open spec fn complex_items(items: Seq<Seq<char>>) -> Seq<Seq<char>> {
    complex_prefix(items, items.len() as int)
}

/// A lone character after a dotted circle; a longer cluster as it is.
pub open spec fn displayable(s: Seq<char>) -> Seq<char> {
    if s.len() == 1 { seq!['\u{25CC}'] + s } else { s }
}

/// The description of the mandatory orthography check.
pub open spec fn mandatory_description(l: LanguageView) -> Seq<char> {
    "The font MUST support the following "@ + l.name + " bases"@
        + (if l.marks.len() > 0 { " and marks"@ } else { Seq::empty() }) + ": "@
        + join(quoted(l.bases) + quoted(l.marks), ", "@)
}

/// The check that the font covers every base and mark and attaches the
/// marks inside bases.
pub open spec fn mandatory_check(l: LanguageView) -> CheckView {
    let marks = l.marks.map_values(|m: Seq<char>| without_dotted_circles(m));
    let complex = complex_items(l.bases);
    CheckView {
        name: "Mandatory orthography codepoints"@,
        severity: ResultCode::Fail,
        description: mandatory_description(l),
        scoring_strategy: ScoringStrategy::AllOrNothing,
        weight: 80,
        implementations: seq![CheckTypeView::Coverage(CoverageView {
            strings: dedup(l.bases),
            code: "base"@,
            terminal_if_empty: true,
        })] + (if marks.len() > 0 {
            seq![CheckTypeView::Coverage(CoverageView { strings: dedup(marks), code: "mark"@, terminal_if_empty: false })]
        } else {
            Seq::empty()
        }) + (if complex.len() > 0 {
            seq![CheckTypeView::Orphans(OrphansView {
                test_strings: complex.map_values(|s: Seq<char>| plain_input(s)),
                has_orthography: true,
            })]
        } else {
            Seq::empty()
        }),
    }
}

/// The check that the font covers the auxiliary clusters, one sub-test
/// each, and attaches the marks inside them.
pub open spec fn auxiliary_check(l: LanguageView) -> CheckView {
    CheckView {
        name: "Auxiliary orthography codepoints"@,
        severity: ResultCode::Warn,
        description: "The font SHOULD support the following auxiliary orthography codepoints: "@
            + join(quoted(l.auxiliaries), ", "@),
        scoring_strategy: ScoringStrategy::Continuous,
        weight: 20,
        implementations: l.auxiliaries.map_values(|a: Seq<char>| CheckTypeView::Coverage(CoverageView {
            strings: seq![a],
            code: "auxiliary"@,
            terminal_if_empty: false,
        })).push(CheckTypeView::Orphans(OrphansView {
            test_strings: complex_items(l.auxiliaries).map_values(|s: Seq<char>| plain_input(displayable(s))),
            has_orthography: true,
        })),
    }
}

/// The orthography checks: the mandatory one where there are bases, the
/// auxiliary one where there are auxiliaries.
pub open spec fn orthography_checks(l: LanguageView) -> Seq<CheckView> {
    (if l.bases.len() > 0 { seq![mandatory_check(l)] } else { Seq::empty() })
        + (if l.auxiliaries.len() > 0 { seq![auxiliary_check(l)] } else { Seq::empty() })
}

/// Quotes each item.
fn quote_all(items: &Vec<String>) -> (r: Vec<String>)
    ensures
        strings_view(r@) == quoted(strings_view(items@)),
{
    let mut r: Vec<String> = Vec::new();
    let mut i: usize = 0;
    while i < items.len()
        invariant
            i <= items.len(),
            strings_view(r@) == quoted(strings_view(items@)).take(i as int),
        decreases items.len() - i,
    {
        let mut s = string_of("'");
        s.append(items[i].as_str());
        s.append("'");
        let ghost before = r@;
        r.push(s);
        assert(strings_view(r@) =~= strings_view(before).push(quoted(strings_view(items@))[i as int]));
        assert(strings_view(r@) =~= quoted(strings_view(items@)).take(i as int + 1));
        i = i + 1;
    }
    assert(quoted(strings_view(items@)).take(i as int) =~= quoted(strings_view(items@)));
    r
}

/// The text with every dotted circle taken out.
fn strip_dotted_circles(s: &str) -> (r: String)
    ensures
        r@ == without_dotted_circles(s@),
{
    let n = s.unicode_len();
    let mut r = String::new();
    let mut i: usize = 0;
    while i < n
        invariant
            i <= n,
            n == s@.len(),
            r@ == without_dotted_circles(s@.take(i as int)),
        decreases n - i,
    {
        let c = s.get_char(i);
        assert(s@.take(i as int + 1).drop_last() =~= s@.take(i as int));
        if c != '\u{25CC}' {
            push_char(&mut r, c);
        }
        i = i + 1;
    }
    assert(s@.take(i as int) =~= s@);
    r
}

/// The complex clusters, in order.
fn complex_of(items: &Vec<String>) -> (r: Vec<String>)
    ensures
        strings_view(r@) == complex_items(strings_view(items@)),
{
    let ghost v = strings_view(items@);
    let mut r: Vec<String> = Vec::new();
    let mut i: usize = 0;
    while i < items.len()
        invariant
            i <= items.len(),
            v == strings_view(items@),
            strings_view(r@) == complex_prefix(v, i as int),
        decreases items.len() - i,
    {
        if has_complex_decomposed_base(items[i].as_str()) {
            let ghost before = r@;
            r.push(items[i].clone());
            assert(strings_view(r@) =~= strings_view(before).push(v[i as int]));
        }
        i = i + 1;
    }
    r
}

/// Plain inputs for the given texts, in order.
fn plain_inputs(texts: &Vec<String>) -> (r: Vec<ShapingInput>)
    ensures
        inputs_view(r@) == strings_view(texts@).map_values(|s: Seq<char>| plain_input(s)),
{
    let ghost target = strings_view(texts@).map_values(|s: Seq<char>| plain_input(s));
    let mut r: Vec<ShapingInput> = Vec::new();
    let mut i: usize = 0;
    while i < texts.len()
        invariant
            i <= texts.len(),
            target == strings_view(texts@).map_values(|s: Seq<char>| plain_input(s)),
            inputs_view(r@) == target.take(i as int),
        decreases texts.len() - i,
    {
        let input = ShapingInput::new_simple(texts[i].clone());
        let ghost before = r@;
        r.push(input);
        assert(inputs_view(r@) =~= inputs_view(before).push(target[i as int]));
        assert(inputs_view(r@) =~= target.take(i as int + 1));
        i = i + 1;
    }
    assert(target.take(i as int) =~= target);
    r
}

/// The mandatory orthography check of a language with bases.
fn mandatory_orthography(language: &Language) -> (r: Check)
    ensures
        r@ == mandatory_check(language@),
{
    let mut description = string_of("The font MUST support the following ");
    description.append(language.name.as_str());
    description.append(" bases");
    if language.marks.len() > 0 {
        description.append(" and marks");
    }
    description.append(": ");
    let mut items = quote_all(&language.bases);
    let mut quoted_marks = quote_all(&language.marks);
    let ghost qb = strings_view(items@);
    let ghost qm = strings_view(quoted_marks@);
    items.append(&mut quoted_marks);
    assert(strings_view(items@) =~= qb + qm);
    let joined = join_strings(&items, ", ");
    description.append(joined.as_str());
    let mut implementations: Vec<CheckType> = Vec::new();
    implementations.push(CheckType::CodepointCoverage(CodepointCoverage::new(
        clone_strings(&language.bases),
        string_of("base"),
        true,
    )));
    let mut marks: Vec<String> = Vec::new();
    let mut i: usize = 0;
    while i < language.marks.len()
        invariant
            i <= language.marks.len(),
            strings_view(marks@) == language@.marks.map_values(|m: Seq<char>| without_dotted_circles(m)).take(i as int),
        decreases language.marks.len() - i,
    {
        let m = strip_dotted_circles(language.marks[i].as_str());
        assert(language@.marks[i as int] == language.marks@[i as int]@);
        let ghost before = marks@;
        marks.push(m);
        assert(strings_view(marks@) =~= strings_view(before).push(m@));
        assert(strings_view(marks@) =~= language@.marks.map_values(|m: Seq<char>| without_dotted_circles(m)).take(i as int + 1));
        i = i + 1;
    }
    assert(language@.marks.map_values(|m: Seq<char>| without_dotted_circles(m)).take(i as int)
        =~= language@.marks.map_values(|m: Seq<char>| without_dotted_circles(m)));
    if marks.len() > 0 {
        implementations.push(CheckType::CodepointCoverage(CodepointCoverage::new(marks, string_of("mark"), false)));
    }
    let complex = complex_of(&language.bases);
    if complex.len() > 0 {
        implementations.push(CheckType::NoOrphanedMarks(NoOrphanedMarks::new(plain_inputs(&complex), true)));
    }
    let r = Check {
        name: string_of("Mandatory orthography codepoints"),
        severity: ResultCode::Fail,
        description,
        scoring_strategy: ScoringStrategy::AllOrNothing,
        weight: 80,
        implementations,
    };
    assert(r@.implementations =~= mandatory_check(language@).implementations);
    r
}

/// The auxiliary orthography check of a language with auxiliaries.
fn auxiliaries_check(language: &Language) -> (r: Check)
    ensures
        r@ == auxiliary_check(language@),
{
    let mut description = string_of("The font SHOULD support the following auxiliary orthography codepoints: ");
    let quoted_auxiliaries = quote_all(&language.auxiliaries);
    let joined = join_strings(&quoted_auxiliaries, ", ");
    description.append(joined.as_str());
    let ghost each = language@.auxiliaries.map_values(|a: Seq<char>| CheckTypeView::Coverage(CoverageView {
        strings: seq![a],
        code: "auxiliary"@,
        terminal_if_empty: false,
    }));
    let mut implementations: Vec<CheckType> = Vec::new();
    let mut i: usize = 0;
    while i < language.auxiliaries.len()
        invariant
            i <= language.auxiliaries.len(),
            each == language@.auxiliaries.map_values(|a: Seq<char>| CheckTypeView::Coverage(CoverageView {
                strings: seq![a],
                code: "auxiliary"@,
                terminal_if_empty: false,
            })),
            check_types_view(implementations@) == each.take(i as int),
        decreases language.auxiliaries.len() - i,
    {
        let mut single: Vec<String> = Vec::new();
        single.push(language.auxiliaries[i].clone());
        let coverage = CodepointCoverage::new(single, string_of("auxiliary"), false);
        assert(dedup(strings_view(single@)) =~= seq![language@.auxiliaries[i as int]]) by {
            assert(strings_view(single@).drop_last() =~= Seq::<Seq<char>>::empty());
            assert(dedup(Seq::<Seq<char>>::empty()) == Seq::<Seq<char>>::empty());
            assert(strings_view(single@).last() == language@.auxiliaries[i as int]);
        }
        assert(coverage@.strings == seq![language@.auxiliaries[i as int]]);
        let ghost before = implementations@;
        implementations.push(CheckType::CodepointCoverage(coverage));
        assert(check_types_view(implementations@) =~= check_types_view(before).push(each[i as int]));
        assert(check_types_view(implementations@) =~= each.take(i as int + 1));
        i = i + 1;
    }
    assert(each.take(i as int) =~= each);
    let complex = complex_of(&language.auxiliaries);
    let mut shown: Vec<String> = Vec::new();
    let mut k: usize = 0;
    while k < complex.len()
        invariant
            k <= complex.len(),
            strings_view(shown@) == strings_view(complex@).map_values(|s: Seq<char>| displayable(s)).take(k as int),
        decreases complex.len() - k,
    {
        let s = &complex[k];
        let item = if s.as_str().unicode_len() == 1 {
            let mut d = String::new();
            push_char(&mut d, '\u{25CC}');
            d.append(s.as_str());
            assert(d@ =~= seq!['\u{25CC}'] + s@);
            d
        } else {
            s.clone()
        };
        let ghost before = shown@;
        shown.push(item);
        assert(strings_view(shown@) =~= strings_view(before).push(displayable(s@)));
        assert(strings_view(shown@) =~= strings_view(complex@).map_values(|s: Seq<char>| displayable(s)).take(k as int + 1));
        k = k + 1;
    }
    assert(strings_view(complex@).map_values(|s: Seq<char>| displayable(s)).take(k as int)
        =~= strings_view(complex@).map_values(|s: Seq<char>| displayable(s)));
    let inputs = plain_inputs(&shown);
    assert(inputs_view(inputs@) =~= complex_items(language@.auxiliaries).map_values(|s: Seq<char>| plain_input(displayable(s))));
    implementations.push(CheckType::NoOrphanedMarks(NoOrphanedMarks::new(inputs, true)));
    let r = Check {
        name: string_of("Auxiliary orthography codepoints"),
        severity: ResultCode::Warn,
        description,
        scoring_strategy: ScoringStrategy::Continuous,
        weight: 20,
        implementations,
    };
    assert(r@.implementations =~= auxiliary_check(language@).implementations);
    r
}

/// The checks that a font covers a language's exemplar characters.
pub struct OrthographiesProvider;

impl OrthographiesProvider {
    /// The mandatory check where there are bases, then the auxiliary check
    /// where there are auxiliaries.
    pub fn checks(&self, language: &Language) -> (r: Vec<Check>)
        ensures
            checks_view(r@) == orthography_checks(language@),
    {
        let mut checks: Vec<Check> = Vec::new();
        if language.bases.len() > 0 {
            checks.push(mandatory_orthography(language));
        }
        if language.auxiliaries.len() > 0 {
            checks.push(auxiliaries_check(language));
        }
        assert(checks_view(checks@) =~= orthography_checks(language@));
        checks
    }
}

impl Provider for OrthographiesProvider {
    open spec fn provided(&self, l: LanguageView) -> Seq<CheckView> {
        orthography_checks(l)
    }

    fn checks_for(&self, language: &Language) -> Vec<Check> {
        self.checks(language)
    }
}

/// Whether a cluster is a single lowercase letter.
pub open spec fn is_small_caps_candidate(s: Seq<char>) -> bool {
    s.len() == 1 && general_category_of(s[0]) == LOWERCASE_LETTER
}

/// Whether a cluster is a single letter.
pub open spec fn is_single_letter(s: Seq<char>) -> bool {
    s.len() == 1 && category_group_of(s[0]) == LETTER_GROUP
}

/// The clusters among the first `n` that pass `keep`, in order.
pub open spec fn kept_prefix(items: Seq<Seq<char>>, keep: spec_fn(Seq<char>) -> bool, n: int) -> Seq<Seq<char>>
    decreases n,
{
    if n <= 0 {
        Seq::empty()
    } else if keep(items[n - 1]) {
        kept_prefix(items, keep, n - 1).push(items[n - 1])
    } else {
        kept_prefix(items, keep, n - 1)
    }
}

proof fn lemma_kept_pass(items: Seq<Seq<char>>, keep: spec_fn(Seq<char>) -> bool, n: int)
    ensures
        forall|j: int| 0 <= j < kept_prefix(items, keep, n).len() ==> keep(#[trigger] kept_prefix(items, keep, n)[j]),
    decreases n,
{
    if n > 0 {
        lemma_kept_pass(items, keep, n - 1);
        let prev = kept_prefix(items, keep, n - 1);
        assert forall|j: int| 0 <= j < kept_prefix(items, keep, n).len() implies keep(#[trigger] kept_prefix(items, keep, n)[j]) by {
            if j < prev.len() {
                assert(kept_prefix(items, keep, n)[j] == prev[j]);
            }
        }
    }
}

/// The clusters that pass `keep`, in order.
pub open spec fn kept(items: Seq<Seq<char>>, keep: spec_fn(Seq<char>) -> bool) -> Seq<Seq<char>> {
    kept_prefix(items, keep, items.len() as int)
}

/// A text with one feature setting and no language.
pub open spec fn featured_input(text: Seq<char>, feature: Seq<char>) -> InputView {
    InputView { text, features: seq![feature], language: None }
}

/// The small caps check of a Latin language: each single lowercase letter
/// among the bases and auxiliaries shapes differently with `smcp`.
pub open spec fn small_caps_check(l: LanguageView) -> CheckView {
    let letters = kept(l.bases + l.auxiliaries, |s: Seq<char>| is_small_caps_candidate(s));
    CheckView {
        name: "Small caps for Latin letters"@,
        severity: ResultCode::Warn,
        description: "Latin letters should form small caps when the smcp feature is enabled"@,
        scoring_strategy: ScoringStrategy::Continuous,
        weight: 10,
        implementations: seq![CheckTypeView::Differs(DiffersView {
            pairs: letters.map_values(|s: Seq<char>| (plain_input(s), featured_input(s, "smcp"@))),
            features_optional: true,
            ignore_notdefs: true,
        })],
    }
}

/// The small caps checks: one for a Latin language, none otherwise.
pub open spec fn small_caps_checks(l: LanguageView) -> Seq<CheckView> {
    if l.script == "Latn"@ { seq![small_caps_check(l)] } else { Seq::empty() }
}

/// The clusters that pass a test, in order.
fn keep_letters(items: &Vec<String>, lowercase: bool) -> (r: Vec<String>)
    ensures
        lowercase ==> strings_view(r@) == kept(strings_view(items@), |s: Seq<char>| is_small_caps_candidate(s)),
        !lowercase ==> strings_view(r@) == kept(strings_view(items@), |s: Seq<char>| is_single_letter(s)),
{
    let ghost keep = if lowercase {
        |s: Seq<char>| is_small_caps_candidate(s)
    } else {
        |s: Seq<char>| is_single_letter(s)
    };
    let ghost v = strings_view(items@);
    let mut r: Vec<String> = Vec::new();
    let mut i: usize = 0;
    while i < items.len()
        invariant
            i <= items.len(),
            v == strings_view(items@),
            keep == (if lowercase {
                |s: Seq<char>| is_small_caps_candidate(s)
            } else {
                |s: Seq<char>| is_single_letter(s)
            }),
            strings_view(r@) == kept_prefix(v, keep, i as int),
        decreases items.len() - i,
    {
        let s = items[i].as_str();
        assert(v[i as int] == s@);
        let pass = if s.unicode_len() != 1 {
            false
        } else if lowercase {
            general_category(s.get_char(0)) == LOWERCASE_LETTER
        } else {
            category_group(s.get_char(0)) == LETTER_GROUP
        };
        assert(pass == keep(v[i as int]));
        if pass {
            let ghost before = r@;
            r.push(items[i].clone());
            assert(strings_view(r@) =~= strings_view(before).push(v[i as int]));
        }
        i = i + 1;
    }
    assert(v.len() == items.len());
    r
}

/// The small caps check of Latin languages.
pub struct SmallCapsProvider;

impl SmallCapsProvider {
    /// One check for a Latin language that each single lowercase letter
    /// among the bases and auxiliaries shapes differently with `smcp`;
    /// none for other scripts.
    pub fn checks(&self, language: &Language) -> (r: Vec<Check>)
        ensures
            checks_view(r@) == small_caps_checks(language@),
    {
        let mut checks: Vec<Check> = Vec::new();
        if !language.script.eq(&string_of("Latn")) {
            assert(language@.script != "Latn"@);
            assert(checks_view(checks@) =~= small_caps_checks(language@));
            return checks;
        }
        let mut all = clone_strings(&language.bases);
        let mut auxiliaries = clone_strings(&language.auxiliaries);
        all.append(&mut auxiliaries);
        assert(strings_view(all@) =~= language@.bases + language@.auxiliaries);
        let letters = keep_letters(&all, true);
        let ghost target = strings_view(letters@).map_values(|s: Seq<char>| (plain_input(s), featured_input(s, "smcp"@)));
        let mut pairs: Vec<(ShapingInput, ShapingInput)> = Vec::new();
        let mut i: usize = 0;
        while i < letters.len()
            invariant
                i <= letters.len(),
                target == strings_view(letters@).map_values(|s: Seq<char>| (plain_input(s), featured_input(s, "smcp"@))),
                crate::checks::shaping_differs::pairs_view(pairs@) == target.take(i as int),
            decreases letters.len() - i,
        {
            let pair = (
                ShapingInput::new_simple(letters[i].clone()),
                ShapingInput::new_with_feature(letters[i].clone(), "smcp"),
            );
            let ghost before = pairs@;
            pairs.push(pair);
            assert(crate::checks::shaping_differs::pairs_view(pairs@) =~= crate::checks::shaping_differs::pairs_view(before).push(target[i as int]));
            assert(crate::checks::shaping_differs::pairs_view(pairs@) =~= target.take(i as int + 1));
            i = i + 1;
        }
        assert(target.take(i as int) =~= target);
        let mut implementations: Vec<CheckType> = Vec::new();
        implementations.push(CheckType::ShapingDiffers(ShapingDiffers::new(pairs, FeaturesOptional(true), IgnoreNotdefs(true))));
        checks.push(Check {
            name: string_of("Small caps for Latin letters"),
            severity: ResultCode::Warn,
            description: string_of("Latin letters should form small caps when the smcp feature is enabled"),
            scoring_strategy: ScoringStrategy::Continuous,
            weight: 10,
            implementations,
        });
        assert(checks_view(checks@) =~= small_caps_checks(language@)) by {
            assert(checks_view(checks@)[0].implementations =~= small_caps_check(language@).implementations);
        }
        checks
    }
}

impl Provider for SmallCapsProvider {
    open spec fn provided(&self, l: LanguageView) -> Seq<CheckView> {
        small_caps_checks(l)
    }

    fn checks_for(&self, language: &Language) -> Vec<Check> {
        self.checks(language)
    }
}

/// The zero width joiner, U+200D.
pub open spec fn zwj() -> Seq<char> {
    seq!['\u{200D}']
}

/// A pair whose first input has the feature switched off and whose second
/// has it on, both over `pre + letter + post`.
pub open spec fn positional_pair(pre: Seq<char>, letter: Seq<char>, post: Seq<char>, feature: Seq<char>) -> (InputView, InputView) {
    let text = pre + letter + post;
    (featured_input(text, "-"@ + feature), plain_input(text))
}

/// The `init`, `medi` and `fina` pairs of the first `n` letters: all three
/// for a dual-joining letter, `fina` for a right-joining one.
pub open spec fn positional_pairs(letters: Seq<Seq<char>>, n: int)
    -> (Seq<(InputView, InputView)>, Seq<(InputView, InputView)>, Seq<(InputView, InputView)>)
    decreases n,
{
    if n <= 0 {
        (Seq::empty(), Seq::empty(), Seq::empty())
    } else {
        let (init, medi, fina) = positional_pairs(letters, n - 1);
        let letter = letters[n - 1];
        match joining_type_of(letter[0]) {
            JoiningKind::DualJoining => (
                init.push(positional_pair(Seq::empty(), letter, zwj(), "init"@)),
                medi.push(positional_pair(zwj(), letter, zwj(), "medi"@)),
                fina.push(positional_pair(zwj(), letter, Seq::empty(), "fina"@)),
            ),
            JoiningKind::RightJoining => (init, medi, fina.push(positional_pair(zwj(), letter, Seq::empty(), "fina"@))),
            _ => (init, medi, fina),
        }
    }
}

/// A pair check that never skips and lets `.notdef` runs pass.
pub open spec fn positional_differs(pairs: Seq<(InputView, InputView)>) -> CheckTypeView {
    CheckTypeView::Differs(DiffersView { pairs, features_optional: false, ignore_notdefs: true })
}

/// The positional forms check of an Arabic language.
pub open spec fn positional_check_of(l: LanguageView) -> CheckView {
    let letters = kept(l.bases, |s: Seq<char>| is_single_letter(s));
    let (init, medi, fina) = positional_pairs(letters, letters.len() as int);
    CheckView {
        name: "Positional forms for Arabic letters"@,
        severity: ResultCode::Fail,
        description: "Arabic letters MUST form positional forms when the init, medi, and fina features are enabled"@,
        scoring_strategy: ScoringStrategy::Continuous,
        weight: 20,
        implementations: seq![positional_differs(init), positional_differs(medi), positional_differs(fina)],
    }
}

/// The positional checks: one for an Arabic language, none otherwise.
pub open spec fn positional_checks(l: LanguageView) -> Seq<CheckView> {
    if l.script == "Arab"@ { seq![positional_check_of(l)] } else { Seq::empty() }
}

/// A pair whose first input has `feature` switched off and whose second
/// has no feature setting, both over `pre + character + post`.
pub fn positional_check(pre: &str, character: &str, post: &str, feature: &str) -> (r: (ShapingInput, ShapingInput))
    ensures
        (r.0@, r.1@) == positional_pair(pre@, character@, post@, feature@),
{
    let mut input = string_of(pre);
    input.append(character);
    input.append(post);
    let mut off = string_of("-");
    off.append(feature);
    let before = ShapingInput::new_with_feature(input.clone(), off.as_str());
    let after = ShapingInput::new_simple(input);
    (before, after)
}

/// The positional forms check of Arabic languages.
pub struct PositionalProvider;

impl PositionalProvider {
    /// One check for an Arabic language that each single letter shapes
    /// differently with its positional features off; none for other scripts.
    pub fn checks(&self, language: &Language) -> (r: Vec<Check>)
        ensures
            checks_view(r@) == positional_checks(language@),
    {
        let mut checks: Vec<Check> = Vec::new();
        if !language.script.eq(&string_of("Arab")) {
            assert(language@.script != "Arab"@);
            assert(checks_view(checks@) =~= positional_checks(language@));
            return checks;
        }
        let letters = keep_letters(&language.bases, false);
        let ghost lv = strings_view(letters@);
        proof {
            lemma_kept_pass(language@.bases, |s: Seq<char>| is_single_letter(s), language@.bases.len() as int);
        }
        let zwj_text = "\u{200D}";
        proof {
            reveal_strlit("\u{200D}");
        }
        assert(zwj_text@ =~= zwj());
        let mut init_pairs: Vec<(ShapingInput, ShapingInput)> = Vec::new();
        let mut medi_pairs: Vec<(ShapingInput, ShapingInput)> = Vec::new();
        let mut fina_pairs: Vec<(ShapingInput, ShapingInput)> = Vec::new();
        let mut i: usize = 0;
        while i < letters.len()
            invariant
                i <= letters.len(),
                lv == strings_view(letters@),
                zwj_text@ == zwj(),
                (crate::checks::shaping_differs::pairs_view(init_pairs@), crate::checks::shaping_differs::pairs_view(medi_pairs@),
                    crate::checks::shaping_differs::pairs_view(fina_pairs@)) == positional_pairs(lv, i as int),
                forall|j: int| 0 <= j < lv.len() ==> (#[trigger] lv[j]).len() == 1,
            decreases letters.len() - i,
        {
            let base = letters[i].as_str();
            assert(lv[i as int] == base@);
            let kind = joining_type(base.get_char(0));
            let ghost init_before = init_pairs@;
            let ghost medi_before = medi_pairs@;
            let ghost fina_before = fina_pairs@;
            match kind {
                JoiningKind::DualJoining => {
                    init_pairs.push(positional_check("", base, zwj_text, "init"));
                    medi_pairs.push(positional_check(zwj_text, base, zwj_text, "medi"));
                    fina_pairs.push(positional_check(zwj_text, base, "", "fina"));
                    proof {
                        reveal_strlit("");
                    }
                    assert(crate::checks::shaping_differs::pairs_view(init_pairs@) =~= crate::checks::shaping_differs::pairs_view(init_before).push(positional_pair(Seq::empty(), lv[i as int], zwj(), "init"@)));
                    assert(crate::checks::shaping_differs::pairs_view(medi_pairs@) =~= crate::checks::shaping_differs::pairs_view(medi_before).push(positional_pair(zwj(), lv[i as int], zwj(), "medi"@)));
                    assert(crate::checks::shaping_differs::pairs_view(fina_pairs@) =~= crate::checks::shaping_differs::pairs_view(fina_before).push(positional_pair(zwj(), lv[i as int], Seq::empty(), "fina"@)));
                },
                JoiningKind::RightJoining => {
                    fina_pairs.push(positional_check(zwj_text, base, "", "fina"));
                    proof {
                        reveal_strlit("");
                    }
                    assert(crate::checks::shaping_differs::pairs_view(fina_pairs@) =~= crate::checks::shaping_differs::pairs_view(fina_before).push(positional_pair(zwj(), lv[i as int], Seq::empty(), "fina"@)));
                },
                _ => {},
            }
            i = i + 1;
        }
        let mut implementations: Vec<CheckType> = Vec::new();
        implementations.push(CheckType::ShapingDiffers(ShapingDiffers::new(init_pairs, FeaturesOptional(false), IgnoreNotdefs(true))));
        implementations.push(CheckType::ShapingDiffers(ShapingDiffers::new(medi_pairs, FeaturesOptional(false), IgnoreNotdefs(true))));
        implementations.push(CheckType::ShapingDiffers(ShapingDiffers::new(fina_pairs, FeaturesOptional(false), IgnoreNotdefs(true))));
        checks.push(Check {
            name: string_of("Positional forms for Arabic letters"),
            severity: ResultCode::Fail,
            description: string_of("Arabic letters MUST form positional forms when the init, medi, and fina features are enabled"),
            scoring_strategy: ScoringStrategy::Continuous,
            weight: 20,
            implementations,
        });
        assert(checks_view(checks@) =~= positional_checks(language@)) by {
            assert(checks_view(checks@)[0].implementations =~= positional_check_of(language@).implementations);
        }
        checks
    }
}

impl Provider for PositionalProvider {
    open spec fn provided(&self, l: LanguageView) -> Seq<CheckView> {
        positional_checks(l)
    }

    fn checks_for(&self, language: &Language) -> Vec<Check> {
        self.checks(language)
    }
}

/// The checks listed for a language id in a table of hand-written checks:
/// those of the first entry for the id, or none.
pub open spec fn manual_checks(table: Seq<(Seq<char>, Seq<CheckView>)>, id: Seq<char>) -> Seq<CheckView>
    decreases table.len(),
{
    if table.len() == 0 {
        Seq::empty()
    } else if table[0].0 == id {
        table[0].1
    } else {
        manual_checks(table.drop_first(), id)
    }
}

/// The contents of a table of hand-written checks.
pub open spec fn table_view(table: Seq<(String, Vec<Check>)>) -> Seq<(Seq<char>, Seq<CheckView>)> {
    table.map_values(|e: (String, Vec<Check>)| (e.0@, checks_view(e.1@)))
}

/// Hand-written checks, listed by language id.
pub struct TomlProvider {
    /// The checks of each language id.
    pub table: Vec<(String, Vec<Check>)>,
}

impl TomlProvider {
    /// A provider with no hand-written checks.
    pub fn empty() -> (r: Self)
        ensures
            table_view(r.table@) == Seq::<(Seq<char>, Seq<CheckView>)>::empty(),
    {
        let r = TomlProvider { table: Vec::new() };
        assert(table_view(r.table@) =~= Seq::<(Seq<char>, Seq<CheckView>)>::empty());
        r
    }

    /// Copies of the checks listed for the language's id, or none.
    pub fn checks(&self, language: &Language) -> (r: Vec<Check>)
        ensures
            checks_view(r@) == manual_checks(table_view(self.table@), language@.id),
    {
        let ghost t = table_view(self.table@);
        assert(t.subrange(0, t.len() as int) =~= t);
        let mut i: usize = 0;
        while i < self.table.len()
            invariant
                i <= self.table.len(),
                t == table_view(self.table@),
                manual_checks(t, language@.id) == manual_checks(t.subrange(i as int, t.len() as int), language@.id),
            decreases self.table.len() - i,
        {
            let ghost rest = t.subrange(i as int, t.len() as int);
            assert(rest.drop_first() =~= t.subrange(i as int + 1, t.len() as int));
            assert(rest[0] == (self.table@[i as int].0@, checks_view(self.table@[i as int].1@)));
            if self.table[i].0.eq(&language.id) {
                return duplicate_checks(&self.table[i].1);
            }
            i = i + 1;
        }
        let r: Vec<Check> = Vec::new();
        assert(checks_view(r@) =~= Seq::<CheckView>::empty());
        r
    }
}

impl Provider for TomlProvider {
    open spec fn provided(&self, l: LanguageView) -> Seq<CheckView> {
        manual_checks(table_view(self.table@), l.id)
    }

    fn checks_for(&self, language: &Language) -> Vec<Check> {
        self.checks(language)
    }
}

/// Checks for African languages in Latin script; those that such languages
/// need are already given by the orthography and small caps providers.
pub struct AfricanLatinProvider;

impl Provider for AfricanLatinProvider {
    open spec fn provided(&self, l: LanguageView) -> Seq<CheckView> {
        Seq::empty()
    }

    fn checks_for(&self, _language: &Language) -> Vec<Check> {
        let r: Vec<Check> = Vec::new();
        assert(checks_view(r@) =~= Seq::<CheckView>::empty());
        r
    }
}

/// Every check for a language: orthography, small caps, positional forms
/// and the hand-written ones, in that order.
pub open spec fn base_checks(l: LanguageView, table: Seq<(Seq<char>, Seq<CheckView>)>) -> Seq<CheckView> {
    orthography_checks(l) + small_caps_checks(l) + positional_checks(l) + manual_checks(table, l.id)
}

/// The provider of every check: it calls the others in turn.
pub struct BaseCheckProvider {
    /// The hand-written checks.
    pub manual: TomlProvider,
}

impl BaseCheckProvider {
    /// The provider with the given hand-written checks.
    pub fn new(manual: TomlProvider) -> (r: Self)
        ensures
            r.manual == manual,
    {
        BaseCheckProvider { manual }
    }

    /// Orthography, small caps, positional and hand-written checks, in order.
    pub fn checks(&self, language: &Language) -> (r: Vec<Check>)
        ensures
            checks_view(r@) == base_checks(language@, table_view(self.manual.table@)),
    {
        let mut checks = OrthographiesProvider.checks(language);
        let ghost a = checks_view(checks@);
        let mut small_caps = SmallCapsProvider.checks(language);
        let ghost b = checks_view(small_caps@);
        checks.append(&mut small_caps);
        assert(checks_view(checks@) =~= a + b);
        let ghost ab = checks_view(checks@);
        let mut positional = PositionalProvider.checks(language);
        let ghost c = checks_view(positional@);
        checks.append(&mut positional);
        assert(checks_view(checks@) =~= ab + c);
        let ghost abc = checks_view(checks@);
        let mut manual = self.manual.checks(language);
        let ghost d = checks_view(manual@);
        checks.append(&mut manual);
        assert(checks_view(checks@) =~= abc + d);
        checks
    }
}

impl Provider for BaseCheckProvider {
    open spec fn provided(&self, l: LanguageView) -> Seq<CheckView> {
        base_checks(l, table_view(self.manual.table@))
    }

    fn checks_for(&self, language: &Language) -> Vec<Check> {
        self.checks(language)
    }
}

} // verus!
