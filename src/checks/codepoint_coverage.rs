//! Whether a font has a glyph for each of a set of strings.
use vstd::prelude::*;

use crate::checker::{shaped, Checker};
use crate::reporter::{problems_view, ContextView, Fix, Problem, ProblemContext, ProblemView};
use crate::shaping::{covered_run, run_has_notdef, runs_view, InputView, ShapedGlyph, ShapingInput};
use crate::text::{clone_strings, dedup, dedup_strings, join, join_strings, string_of, strings_view};

verus! {

/// Checks that shaping each string produces no `.notdef` glyph.
#[derive(Debug, Clone)]
pub struct CodepointCoverage {
    /// The strings to cover, each once, in order of first appearance.
    pub strings: Vec<String>,
    /// The code of the problem on failure, before `s-missing`.
    pub code: String,
    /// Whether the problem is terminal when no string is covered.
    pub terminal_if_empty: bool,
}

/// The contents of a [`CodepointCoverage`].
pub struct CoverageView {
    pub strings: Seq<Seq<char>>,
    pub code: Seq<char>,
    pub terminal_if_empty: bool,
}

impl View for CodepointCoverage {
    type V = CoverageView;

    open spec fn view(&self) -> CoverageView {
        CoverageView {
            strings: strings_view(self.strings@),
            code: self.code@,
            terminal_if_empty: self.terminal_if_empty,
        }
    }
}

/// A text shaped with no features and no language.
pub open spec fn plain_input(text: Seq<char>) -> InputView {
    InputView { text, features: Seq::empty(), language: None }
}

/// The run of each string, shaped plainly in the font.
pub open spec fn coverage_runs(font: Seq<u8>, strings: Seq<Seq<char>>) -> Seq<Option<Seq<ShapedGlyph>>> {
    strings.map_values(|s: Seq<char>| shaped(font, plain_input(s)))
}

/// The strings whose run is not covered, in order.
pub open spec fn missing_strings(strings: Seq<Seq<char>>, runs: Seq<Option<Seq<ShapedGlyph>>>) -> Seq<Seq<char>>
    decreases strings.len(),
{
    if strings.len() == 0 {
        Seq::empty()
    } else {
        let rest = missing_strings(strings.drop_last(), runs);
        if covered_run(runs[strings.len() - 1]) {
            rest
        } else {
            rest.push(strings.last())
        }
    }
}

/// A fix that adds each string to the font.
pub open spec fn codepoint_fixes(missing: Seq<Seq<char>>) -> Seq<(Seq<char>, Seq<char>)> {
    missing.map_values(|s: Seq<char>| ("add_codepoint"@, s))
}

/// The strings that a coverage check tests: each once, in order of first
/// appearance.
pub open spec fn tested_strings(c: CoverageView) -> Seq<Seq<char>> {
    dedup(c.strings)
}

/// The problems that a coverage check reports, given the run of each
/// tested string.
pub open spec fn coverage_problems(c: CoverageView, runs: Seq<Option<Seq<ShapedGlyph>>>) -> Seq<ProblemView> {
    let missing = missing_strings(tested_strings(c), runs);
    if missing.len() == 0 {
        Seq::empty()
    } else {
        seq![ProblemView {
            check_name: "CodepointCoverage"@,
            message: "The following "@ + c.code + " characters are missing from the font: "@ + join(missing, ", "@),
            code: c.code + "s-missing"@,
            terminal: missing.len() == tested_strings(c).len() && c.terminal_if_empty,
            context: ContextView::Glyphs(missing),
            fixes: codepoint_fixes(missing),
        }]
    }
}

/// The description of a coverage check.
pub open spec fn describe_coverage(c: CoverageView) -> Seq<char> {
    "Checks that all the following codepoints are covered in the font: "@ + join(c.strings, ", "@)
}

pub(crate) proof fn lemma_missing_len(strings: Seq<Seq<char>>, runs: Seq<Option<Seq<ShapedGlyph>>>)
    ensures
        missing_strings(strings, runs).len() <= strings.len(),
    decreases strings.len(),
{
    if strings.len() > 0 {
        lemma_missing_len(strings.drop_last(), runs);
    }
}

proof fn lemma_dedup_distinct(items: Seq<Seq<char>>)
    ensures
        dedup(items).no_duplicates(),
        forall|x: Seq<char>| dedup(items).contains(x) ==> items.contains(x),
    decreases items.len(),
{
    if items.len() > 0 {
        let rest = items.drop_last();
        lemma_dedup_distinct(rest);
        assert forall|x: Seq<char>| rest.contains(x) implies items.contains(x) by {
            let k = choose|k: int| 0 <= k < rest.len() && rest[k] == x;
            assert(items[k] == x);
        }
        let d = dedup(rest);
        if !d.contains(items.last()) {
            let e = d.push(items.last());
            assert forall|x: Seq<char>| e.contains(x) implies items.contains(x) by {
                let k = choose|k: int| 0 <= k < e.len() && e[k] == x;
                if k < d.len() {
                    assert(d[k] == x);
                } else {
                    assert(items[items.len() - 1] == x);
                }
            }
            assert forall|i: int, j: int| 0 <= i < e.len() && 0 <= j < e.len() && i != j implies e[i] != e[j] by {
                if i < d.len() && j < d.len() {
                } else if i < d.len() {
                    assert(d.contains(e[i]));
                } else {
                    assert(d.contains(e[j]));
                }
            }
        }
    }
}

proof fn lemma_missing_distinct(strings: Seq<Seq<char>>, runs: Seq<Option<Seq<ShapedGlyph>>>)
    requires
        strings.no_duplicates(),
    ensures
        missing_strings(strings, runs).no_duplicates(),
        forall|x: Seq<char>| missing_strings(strings, runs).contains(x) ==> strings.contains(x),
    decreases strings.len(),
{
    if strings.len() > 0 {
        let rest = strings.drop_last();
        assert(rest.no_duplicates()) by {
            assert forall|i: int, j: int| 0 <= i < rest.len() && 0 <= j < rest.len() && i != j implies rest[i] != rest[j] by {
                assert(strings[i] == rest[i] && strings[j] == rest[j]);
            }
        }
        lemma_missing_distinct(rest, runs);
        let m = missing_strings(rest, runs);
        assert forall|x: Seq<char>| rest.contains(x) implies strings.contains(x) by {
            let k = choose|k: int| 0 <= k < rest.len() && rest[k] == x;
            assert(strings[k] == x);
        }
        assert(!rest.contains(strings.last())) by {
            if rest.contains(strings.last()) {
                let k = choose|k: int| 0 <= k < rest.len() && rest[k] == strings.last();
                assert(strings[k] == strings[strings.len() - 1]);
            }
        }
        if !covered_run(runs[strings.len() - 1]) {
            let e = m.push(strings.last());
            assert forall|x: Seq<char>| e.contains(x) implies strings.contains(x) by {
                let k = choose|k: int| 0 <= k < e.len() && e[k] == x;
                if k < m.len() {
                    assert(m[k] == x);
                } else {
                    assert(strings[strings.len() - 1] == x);
                }
            }
            assert forall|i: int, j: int| 0 <= i < e.len() && 0 <= j < e.len() && i != j implies e[i] != e[j] by {
                if i < m.len() && j < m.len() {
                } else if i < m.len() {
                    assert(m.contains(e[i]));
                } else {
                    assert(m.contains(e[j]));
                }
            }
        }
    }
}

/// A coverage problem names each missing string once, and holds exactly
/// one `add_codepoint` fix for each.
pub proof fn lemma_coverage_fixes_distinct(c: CoverageView, runs: Seq<Option<Seq<ShapedGlyph>>>)
    ensures
        forall|i: int| 0 <= i < coverage_problems(c, runs).len() ==> (#[trigger] coverage_problems(c, runs)[i]).fixes.no_duplicates(),
{
    lemma_dedup_distinct(c.strings);
    lemma_missing_distinct(tested_strings(c), runs);
    let m = missing_strings(tested_strings(c), runs);
    let f = codepoint_fixes(m);
    assert forall|i: int, j: int| 0 <= i < f.len() && 0 <= j < f.len() && i != j implies f[i] != f[j] by {
        assert(f[i].1 == m[i] && f[j].1 == m[j]);
    }
}

impl CodepointCoverage {
    /// A coverage check of the given strings, each kept once.
    pub fn new(test_strings: Vec<String>, code: String, terminal_if_empty: bool) -> (r: Self)
        ensures
            r@ == (CoverageView { strings: dedup(strings_view(test_strings@)), code: code@, terminal_if_empty }),
    {
        CodepointCoverage { strings: dedup_strings(&test_strings), code, terminal_if_empty }
    }

    /// A copy of this check.
    pub fn duplicate(&self) -> (r: Self)
        ensures
            r@ == self@,
    {
        CodepointCoverage {
            strings: clone_strings(&self.strings),
            code: self.code.clone(),
            terminal_if_empty: self.terminal_if_empty,
        }
    }

    /// The short label of the check.
    pub fn name(&self) -> (r: String)
        ensures
            r@ == "CodepointCoverage"@,
    {
        string_of("CodepointCoverage")
    }

    /// Describes the check in words.
    pub fn describe(&self) -> (r: String)
        ensures
            r@ == describe_coverage(self@),
    {
        let mut r = string_of("Checks that all the following codepoints are covered in the font: ");
        let joined = join_strings(&self.strings, ", ");
        r.append(joined.as_str());
        r
    }

    /// A coverage check always runs.
    pub fn should_skip(&self, checker: &Checker) -> (r: Option<String>)
        ensures
            r is None,
    {
        None
    }

    /// The problems reported, given the run of each tested string in order.
    pub fn problems_for(&self, runs: &Vec<Option<Vec<ShapedGlyph>>>) -> (r: Vec<Problem>)
        requires
            runs@.len() == tested_strings(self@).len(),
        ensures
            problems_view(r@) == coverage_problems(self@, runs_view(runs@)),
    {
        let ghost rv = runs_view(runs@);
        let strings = dedup_strings(&self.strings);
        let ghost sv = strings_view(strings@);
        let mut missing: Vec<String> = Vec::new();
        let mut i: usize = 0;
        while i < strings.len()
            invariant
                i <= strings.len(),
                sv == strings_view(strings@),
                sv == tested_strings(self@),
                runs@.len() == sv.len(),
                rv == runs_view(runs@),
                strings_view(missing@) == missing_strings(sv.take(i as int), rv),
            decreases strings.len() - i,
        {
            let ghost prefix = sv.take(i as int + 1);
            assert(prefix.drop_last() =~= sv.take(i as int));
            let covered = match &runs[i] {
                Some(glyphs) => !run_has_notdef(&runs[i]),
                None => false,
            };
            assert(rv[i as int] == crate::shaping::run_view(runs@[i as int]));
            assert(covered == covered_run(rv[i as int]));
            if !covered {
                missing.push(strings[i].clone());
                assert(strings_view(missing@) =~= missing_strings(sv.take(i as int), rv).push(sv[i as int]));
            }
            i = i + 1;
        }
        assert(sv.take(i as int) =~= sv);
        let ghost mv = strings_view(missing@);
        let mut problems: Vec<Problem> = Vec::new();
        if missing.len() > 0 {
            let mut message = string_of("The following ");
            message.append(self.code.as_str());
            message.append(" characters are missing from the font: ");
            let joined = join_strings(&missing, ", ");
            message.append(joined.as_str());
            let mut code = self.code.clone();
            code.append("s-missing");
            let mut fixes: Vec<Fix> = Vec::new();
            let mut k: usize = 0;
            while k < missing.len()
                invariant
                    k <= missing.len(),
                    mv == strings_view(missing@),
                    crate::reporter::fixes_view(fixes@) == codepoint_fixes(mv.take(k as int)),
                decreases missing.len() - k,
            {
                let fix = Fix { fix_type: string_of("add_codepoint"), fix_thing: missing[k].clone() };
                assert(fix.fix_type@ == "add_codepoint"@);
                assert(fix.fix_thing@ == missing@[k as int]@);
                assert(mv[k as int] == missing@[k as int]@);
                assert(fix@ == ("add_codepoint"@, mv[k as int]));
                let ghost before = fixes@;
                fixes.push(fix);
                assert(mv.take(k as int + 1) =~= mv.take(k as int).push(mv[k as int]));
                assert(fixes@ == before.push(fix));
                assert(crate::reporter::fixes_view(fixes@) =~= crate::reporter::fixes_view(before).push(fix@));
                assert(codepoint_fixes(mv.take(k as int + 1)) =~= codepoint_fixes(mv.take(k as int)).push(("add_codepoint"@, mv[k as int])));
                assert(crate::reporter::fixes_view(fixes@) =~= codepoint_fixes(mv.take(k as int + 1)));
                k = k + 1;
            }
            assert(mv.take(k as int) =~= mv);
            proof {
                lemma_missing_len(sv, rv);
            }
            let terminal = missing.len() == strings.len() && self.terminal_if_empty;
            let problem = Problem {
                check_name: string_of("CodepointCoverage"),
                message,
                code,
                terminal,
                context: ProblemContext::Glyphs(clone_strings(&missing)),
                fixes,
            };
            let ghost expected = coverage_problems(self@, rv)[0];
            assert(problem@.message == expected.message);
            assert(problem@.code == expected.code);
            assert(problem@.terminal == expected.terminal);
            assert(problem@.context == expected.context);
            assert(problem@.fixes == expected.fixes);
            assert(problem@.check_name == expected.check_name);
            problems.push(problem);
            assert(problems_view(problems@) =~= coverage_problems(self@, rv));
        } else {
            assert(problems_view(problems@) =~= coverage_problems(self@, rv));
        }
        problems
    }

    /// Shapes each tested string and reports those that produce a
    /// `.notdef` or fail to shape; also returns the number of strings tested.
    pub fn execute(&self, checker: &Checker) -> (r: (Vec<Problem>, usize))
        ensures
            problems_view(r.0@) == coverage_problems(self@, coverage_runs(checker@.font, tested_strings(self@))),
            r.1 == tested_strings(self@).len(),
    {
        let strings = dedup_strings(&self.strings);
        let ghost sv = strings_view(strings@);
        let mut runs: Vec<Option<Vec<ShapedGlyph>>> = Vec::new();
        let mut i: usize = 0;
        while i < strings.len()
            invariant
                i <= strings.len(),
                sv == strings_view(strings@),
                runs_view(runs@) == coverage_runs(checker@.font, sv).take(i as int),
            decreases strings.len() - i,
        {
            let input = ShapingInput::new_simple(strings[i].clone());
            assert(input@ == plain_input(sv[i as int]));
            let run = input.shape(checker);
            let ghost rv = crate::shaping::run_view(run);
            assert(rv == shaped(checker@.font, plain_input(sv[i as int])));
            let ghost before = runs@;
            runs.push(run);
            assert(runs_view(runs@) =~= runs_view(before).push(rv));
            assert(runs_view(runs@) =~= coverage_runs(checker@.font, sv).take(i as int + 1));
            i = i + 1;
        }
        assert(coverage_runs(checker@.font, sv).take(i as int) =~= coverage_runs(checker@.font, sv));
        (self.problems_for(&runs), strings.len())
    }
}

} // verus!
