//! Results of checks, and the reporter that scores and summarises them.
use vstd::prelude::*;

use crate::shaping::{InputView, ShapingInput};
use crate::language::Language;
use crate::text::{decimal, decimal_string, dedup, dedup_strings, string_of, strings_view};

verus! {

/// The status of one check.
#[derive(Debug, Clone, Copy, PartialEq, Eq, Structural, Hash)]
pub enum ResultCode {
    /// The check passed.
    Pass,
    /// A problem that does not keep the font from being used.
    Warn,
    /// A problem that keeps the font from being used.
    Fail,
    /// The check did not apply.
    Skip,
    /// Something fundamental is missing; no further checks are run.
    StopNow,
}

/// The word that labels a status in reports.
pub open spec fn result_label(code: ResultCode) -> Seq<char> {
    match code {
        ResultCode::Pass => "PASS"@,
        ResultCode::Warn => "WARN"@,
        ResultCode::Fail => "FAIL"@,
        ResultCode::Skip => "SKIP"@,
        ResultCode::StopNow => "STOP"@,
    }
}

impl ResultCode {
    /// The word that labels this status in reports.
    pub fn label(&self) -> (r: &'static str)
        ensures
            r@ == result_label(*self),
    {
        match self {
            ResultCode::Pass => "PASS",
            ResultCode::Warn => "WARN",
            ResultCode::Fail => "FAIL",
            ResultCode::Skip => "SKIP",
            ResultCode::StopNow => "STOP",
        }
    }
}

impl Default for ResultCode {
    fn default() -> (r: Self)
        ensures
            r == ResultCode::Pass,
    {
        ResultCode::Pass
    }
}

/// A suggestion for how to fix a problem.
#[derive(Debug, Clone)]
pub struct Fix {
    /// The broad category, such as `add_codepoint` or `add_anchor`.
    pub fix_type: String,
    /// What the designer needs to do.
    pub fix_thing: String,
}

impl View for Fix {
    type V = (Seq<char>, Seq<char>);

    open spec fn view(&self) -> (Seq<char>, Seq<char>) {
        (self.fix_type@, self.fix_thing@)
    }
}

/// The contents of each fix of a sequence.
pub open spec fn fixes_view(v: Seq<Fix>) -> Seq<(Seq<char>, Seq<char>)> {
    v.map_values(|f: Fix| f@)
}

/// Details attached to a problem, for machine-readable output.
#[derive(Debug, Clone)]
pub enum ProblemContext {
    /// No details.
    Empty,
    /// The strings that the font could not shape.
    Glyphs(Vec<String>),
    /// A dotted circle glyph came before a mark glyph.
    DottedCircle { previous: Option<u32>, mark_glyph: u32 },
    /// A mark glyph was left at the origin after a base glyph.
    OrphanedMark { text: ShapingInput, mark: String, base: String },
}

/// The contents of a [`ProblemContext`].
pub enum ContextView {
    Empty,
    Glyphs(Seq<Seq<char>>),
    DottedCircle { previous: Option<u32>, mark_glyph: u32 },
    OrphanedMark { text: InputView, mark: Seq<char>, base: Seq<char> },
}

impl View for ProblemContext {
    type V = ContextView;

    open spec fn view(&self) -> ContextView {
        match self {
            ProblemContext::Empty => ContextView::Empty,
            ProblemContext::Glyphs(g) => ContextView::Glyphs(strings_view(g@)),
            ProblemContext::DottedCircle { previous, mark_glyph } => ContextView::DottedCircle {
                previous: *previous,
                mark_glyph: *mark_glyph,
            },
            ProblemContext::OrphanedMark { text, mark, base } => ContextView::OrphanedMark {
                text: text@,
                mark: mark@,
                base: base@,
            },
        }
    }
}

/// A problem found by a sub-test of a check.
#[derive(Debug, Clone)]
pub struct Problem {
    /// The name of the check implementation that found it.
    pub check_name: String,
    /// What went wrong, in words.
    pub message: String,
    /// A short code for the kind of problem.
    pub code: String,
    /// Whether the problem makes the font unusable for the language.
    pub terminal: bool,
    /// Details for machine-readable output.
    pub context: ProblemContext,
    /// Suggested fixes.
    pub fixes: Vec<Fix>,
}

/// The contents of a [`Problem`].
pub struct ProblemView {
    pub check_name: Seq<char>,
    pub message: Seq<char>,
    pub code: Seq<char>,
    pub terminal: bool,
    pub context: ContextView,
    pub fixes: Seq<(Seq<char>, Seq<char>)>,
}

impl View for Problem {
    type V = ProblemView;

    open spec fn view(&self) -> ProblemView {
        ProblemView {
            check_name: self.check_name@,
            message: self.message@,
            code: self.code@,
            terminal: self.terminal,
            context: self.context@,
            fixes: fixes_view(self.fixes@),
        }
    }
}

/// The contents of each problem of a sequence.
pub open spec fn problems_view(v: Seq<Problem>) -> Seq<ProblemView> {
    v.map_values(|p: Problem| p@)
}

/// A problem with no context and no fixes that is not terminal.
pub open spec fn plain_problem(check_name: Seq<char>, code: Seq<char>, message: Seq<char>) -> ProblemView {
    ProblemView {
        check_name,
        message,
        code,
        terminal: false,
        context: ContextView::Empty,
        fixes: Seq::empty(),
    }
}

impl Problem {
    /// A problem that is not terminal, with no context and no fixes.
    pub fn new(check_name: &str, code: &str, message: String) -> (r: Self)
        ensures
            r@ == plain_problem(check_name@, code@, message@),
    {
        let r = Problem {
            check_name: string_of(check_name),
            message,
            code: string_of(code),
            terminal: false,
            context: ProblemContext::Empty,
            fixes: Vec::new(),
        };
        assert(r@.fixes =~= Seq::<(Seq<char>, Seq<char>)>::empty());
        r
    }
}

/// Problems are the same when they come from the same check with the same message.
impl PartialEq for Problem {
    fn eq(&self, other: &Problem) -> (r: bool) {
        self.check_name == other.check_name && self.message == other.message
    }
}

impl vstd::std_specs::cmp::PartialEqSpecImpl for Problem {
    open spec fn obeys_eq_spec() -> bool {
        true
    }

    open spec fn eq_spec(&self, other: &Problem) -> bool {
        self.check_name@ == other.check_name@ && self.message@ == other.message@
    }
}

/// A score between zero and one, as a fraction.
#[derive(Debug, Clone, Copy, PartialEq, Eq, Structural)]
pub struct Score {
    pub numerator: usize,
    pub denominator: usize,
}

impl Score {
    /// A fraction between zero and one.
    pub open spec fn wf(self) -> bool {
        self.numerator <= self.denominator && self.denominator > 0
    }

    /// The score in thousandths of a percent, rounded down.
    pub open spec fn scaled(self) -> nat {
        (self.numerator as nat * 100_000) / self.denominator as nat
    }

    /// The fraction `numerator / denominator`.
    pub fn new(numerator: usize, denominator: usize) -> (r: Self)
        requires
            numerator <= denominator,
            denominator > 0,
        ensures
            r == (Score { numerator, denominator }),
    {
        Score { numerator, denominator }
    }
}

/// The outcome of one check.
#[derive(Debug, Clone)]
pub struct CheckResult {
    /// The name of the check.
    pub check_name: String,
    /// What the check does and why.
    pub check_description: String,
    /// The score of the check.
    pub score: Score,
    /// The weight of the check in the language's score.
    pub weight: u8,
    /// The problems found.
    pub problems: Vec<Problem>,
    /// The number of sub-tests run.
    pub total_checks: usize,
    /// The status of the check.
    pub status: ResultCode,
}

/// The contents of a [`CheckResult`].
pub struct CheckResultView {
    pub check_name: Seq<char>,
    pub check_description: Seq<char>,
    pub score: Score,
    pub weight: u8,
    pub problems: Seq<ProblemView>,
    pub total_checks: usize,
    pub status: ResultCode,
}

impl View for CheckResult {
    type V = CheckResultView;

    open spec fn view(&self) -> CheckResultView {
        CheckResultView {
            check_name: self.check_name@,
            check_description: self.check_description@,
            score: self.score,
            weight: self.weight,
            problems: problems_view(self.problems@),
            total_checks: self.total_checks,
            status: self.status,
        }
    }
}

/// The contents of each result of a sequence.
pub open spec fn results_view(v: Seq<CheckResult>) -> Seq<CheckResultView> {
    v.map_values(|r: CheckResult| r@)
}

/// The one-line summary of a result.
pub open spec fn summary_of(r: CheckResultView) -> Seq<char> {
    if r.problems.len() == 0 {
        r.check_name + ": no problems found"@
    } else {
        r.check_name + " check failed"@
    }
}

/// The messages of the first `n` problems, each on a line of its own
/// indented by two spaces.
pub open spec fn problem_lines(problems: Seq<ProblemView>, n: int) -> Seq<char>
    decreases n,
{
    if n <= 0 {
        Seq::empty()
    } else {
        problem_lines(problems, n - 1) + "\n  "@ + problems[n - 1].message
    }
}

impl CheckResult {
    /// The check's name followed by the message of each problem, one per line.
    pub fn to_text(&self) -> (r: String)
        ensures
            r@ == self.check_name@ + ":"@ + problem_lines(self@.problems, self@.problems.len() as int),
    {
        let mut r = self.check_name.clone();
        r.append(":");
        let ghost head = r@;
        let mut i: usize = 0;
        while i < self.problems.len()
            invariant
                i <= self.problems.len(),
                head == self.check_name@ + ":"@,
                r@ == head + problem_lines(self@.problems, i as int),
            decreases self.problems.len() - i,
        {
            assert(self@.problems[i as int] == self.problems@[i as int]@);
            r.append("\n  ");
            r.append(self.problems[i].message.as_str());
            i = i + 1;
        }
        r
    }

    /// Describes the result in a sentence.
    pub fn summary_result(&self) -> (r: String)
        ensures
            r@ == summary_of(self@),
    {
        let mut s = self.check_name.clone();
        if self.problems.len() == 0 {
            s.append(": no problems found");
        } else {
            s.append(" check failed");
        }
        s
    }
}

/// Every problem of every result, in order.
pub open spec fn all_problems(rs: Seq<CheckResultView>) -> Seq<ProblemView>
    decreases rs.len(),
{
    if rs.len() == 0 {
        Seq::empty()
    } else {
        all_problems(rs.drop_last()) + rs.last().problems
    }
}

/// Every fix of every problem, in order.
pub open spec fn problem_fixes(ps: Seq<ProblemView>) -> Seq<(Seq<char>, Seq<char>)>
    decreases ps.len(),
{
    if ps.len() == 0 {
        Seq::empty()
    } else {
        problem_fixes(ps.drop_last()) + ps.last().fixes
    }
}

/// The distinct fixes over all results, in order of first appearance.
pub open spec fn distinct_fixes(rs: Seq<CheckResultView>) -> Seq<(Seq<char>, Seq<char>)> {
    dedup(problem_fixes(all_problems(rs)))
}

/// The type of each fix.
pub open spec fn fix_types(fixes: Seq<(Seq<char>, Seq<char>)>) -> Seq<Seq<char>>
    decreases fixes.len(),
{
    if fixes.len() == 0 {
        Seq::empty()
    } else {
        fix_types(fixes.drop_last()).push(fixes.last().0)
    }
}

/// The things of the fixes of the given type, in order.
pub open spec fn things_of(fixes: Seq<(Seq<char>, Seq<char>)>, fix_type: Seq<char>) -> Seq<Seq<char>>
    decreases fixes.len(),
{
    if fixes.len() == 0 {
        Seq::empty()
    } else if fixes.last().0 == fix_type {
        things_of(fixes.drop_last(), fix_type).push(fixes.last().1)
    } else {
        things_of(fixes.drop_last(), fix_type)
    }
}

/// The sum of the weights of the results.
pub open spec fn total_weight(rs: Seq<CheckResultView>) -> nat
    decreases rs.len(),
{
    if rs.len() == 0 {
        0
    } else {
        total_weight(rs.drop_last()) + rs.last().weight as nat
    }
}

/// The sum of each result's weight times its score in thousandths of a percent.
pub open spec fn weighted_scores(rs: Seq<CheckResultView>) -> nat
    decreases rs.len(),
{
    if rs.len() == 0 {
        0
    } else {
        weighted_scores(rs.drop_last()) + rs.last().weight as nat * rs.last().score.scaled()
    }
}

/// No result has run a sub-test.
pub open spec fn unknown(rs: Seq<CheckResultView>) -> bool {
    forall|i: int| 0 <= i < rs.len() ==> rs[i].total_checks == 0
}

/// Sub-tests were run and no result holds a problem.
pub open spec fn success(rs: Seq<CheckResultView>) -> bool {
    !unknown(rs) && forall|i: int| 0 <= i < rs.len() ==> rs[i].problems.len() == 0
}

/// Some result has the given status.
pub open spec fn any_status(rs: Seq<CheckResultView>, code: ResultCode) -> bool {
    exists|i: int| 0 <= i < rs.len() && rs[i].status == code
}

/// The level of support that the results show.
pub open spec fn support_of(rs: Seq<CheckResultView>) -> SupportLevel {
    if any_status(rs, ResultCode::StopNow) {
        SupportLevel::NotAttempted
    } else if unknown(rs) {
        SupportLevel::Indeterminate
    } else if success(rs) {
        SupportLevel::Complete
    } else if any_status(rs, ResultCode::Fail) {
        SupportLevel::Unsupported
    } else if any_status(rs, ResultCode::Warn) {
        SupportLevel::Incomplete
    } else {
        SupportLevel::Supported
    }
}

/// The weighted mean score in thousandths of a percent; none when the
/// weights add up to zero.
pub open spec fn mean_score(rs: Seq<CheckResultView>) -> Option<u64> {
    if total_weight(rs) == 0 { None } else { Some((weighted_scores(rs) / total_weight(rs)) as u64) }
}

/// Thousandths of a percent as a whole percentage, a half rounded to the
/// even neighbour.
pub open spec fn round_percent(v: nat) -> nat {
    let q = v / 1000;
    let rem = v % 1000;
    if rem > 500 || (rem == 500 && q % 2 == 1) { q + 1 } else { q }
}

/// A score in thousandths of a percent as a whole percentage, a half
/// rounded to the even neighbour; `NaN` where there is no score.
pub open spec fn percent_text(score: Option<u64>) -> Seq<char> {
    match score {
        Some(v) => decimal(round_percent(v as nat)),
        None => "NaN"@,
    }
}

/// The one-sentence summary of the results for a language.
pub open spec fn summary_sentence(rs: Seq<CheckResultView>, id: Seq<char>, name: Seq<char>) -> Seq<char> {
    let who = id + " ("@ + name + ")"@;
    let percent = percent_text(mean_score(rs));
    let fixes = decimal(distinct_fixes(rs).len());
    match support_of(rs) {
        SupportLevel::Complete => "Font has complete support for "@ + who + ": 100%"@,
        SupportLevel::Supported => "Font fully supports "@ + who + ": "@ + percent + "%"@,
        SupportLevel::Incomplete => "Font partially supports "@ + who + ": "@ + percent + "% ("@ + fixes
            + " fixes required)"@,
        SupportLevel::Unsupported => "Font does not support "@ + who + ": "@ + percent + "% ("@ + fixes
            + " fixes required)"@,
        SupportLevel::NotAttempted => "Font does not attempt to support "@ + who,
        SupportLevel::Indeterminate => "Cannot determine whether font supports "@ + who,
    }
}

/// The results of the checks run for one language, in the order they ran.
#[derive(Debug)]
pub struct Reporter {
    results: Vec<CheckResult>,
}

impl View for Reporter {
    type V = Seq<CheckResultView>;

    closed spec fn view(&self) -> Seq<CheckResultView> {
        results_view(self.results@)
    }
}

impl Reporter {
    /// Every result holds a score between zero and one.
    pub closed spec fn wf(&self) -> bool {
        forall|i: int| 0 <= i < self.results@.len() ==> #[trigger] self.results@[i].score.wf()
    }

    /// An empty reporter.
    pub fn new() -> (r: Self)
        ensures
            r@ == Seq::<CheckResultView>::empty(),
            r.wf(),
    {
        let r = Reporter { results: Vec::new() };
        assert(r@ =~= Seq::<CheckResultView>::empty());
        r
    }

    /// Adds a result at the end.
    pub fn add(&mut self, checkresult: CheckResult)
        requires
            old(self).wf(),
            checkresult.score.wf(),
        ensures
            final(self)@ == old(self)@.push(checkresult@),
            final(self).wf(),
    {
        let ghost v = checkresult@;
        self.results.push(checkresult);
        assert(self@ =~= old(self)@.push(v));
    }

    /// The results, in the order they were added.
    pub fn iter(&self) -> (r: &Vec<CheckResult>)
        ensures
            results_view(r@) == self@,
    {
        &self.results
    }

    /// Every problem of every result, in order.
    pub fn iter_problems(&self) -> (r: Vec<&Problem>)
        ensures
            r@.map_values(|p: &Problem| p@) == all_problems(self@),
    {
        let mut r: Vec<&Problem> = Vec::new();
        let mut i: usize = 0;
        while i < self.results.len()
            invariant
                i <= self.results.len(),
                r@.map_values(|p: &Problem| p@) == all_problems(self@.take(i as int)),
            decreases self.results.len() - i,
        {
            let result = &self.results[i];
            let ghost start = r@.map_values(|p: &Problem| p@);
            let mut j: usize = 0;
            while j < result.problems.len()
                invariant
                    i < self.results.len(),
                    result == &self.results@[i as int],
                    j <= result.problems.len(),
                    r@.map_values(|p: &Problem| p@) == start + problems_view(result.problems@).take(j as int),
                decreases result.problems.len() - j,
            {
                let ghost old_r = r@;
                r.push(&result.problems[j]);
                assert(r@ == old_r.push(&result.problems@[j as int]));
                assert(old_r.map_values(|p: &Problem| p@) =~= start + problems_view(result.problems@).take(j as int));
                assert(problems_view(result.problems@).take(j as int + 1) =~= problems_view(result.problems@).take(j as int).push(result.problems@[j as int]@));
                assert(r@.map_values(|p: &Problem| p@) =~= old_r.map_values(|p: &Problem| p@).push(result.problems@[j as int]@));
                j = j + 1;
            }
            assert(self@.take(i as int + 1).drop_last() =~= self@.take(i as int));
            assert(problems_view(result.problems@).take(j as int) =~= self@[i as int].problems);
            i = i + 1;
        }
        assert(self@.take(i as int) =~= self@);
        r
    }

    /// The distinct fixes over all results, in order of first appearance.
    fn distinct_fixes(&self) -> (r: Vec<(String, String)>)
        ensures
            r@.map_values(|f: (String, String)| (f.0@, f.1@)) == distinct_fixes(self@),
    {
        let problems = self.iter_problems();
        let ghost ps = problems@.map_values(|p: &Problem| p@);
        let mut r: Vec<(String, String)> = Vec::new();
        let mut k: usize = 0;
        while k < problems.len()
            invariant
                k <= problems.len(),
                ps == problems@.map_values(|p: &Problem| p@),
                ps == all_problems(self@),
                r@.map_values(|f: (String, String)| (f.0@, f.1@)) == dedup(problem_fixes(ps.take(k as int))),
            decreases problems.len() - k,
        {
            let problem = problems[k];
            let ghost before = problem_fixes(ps.take(k as int));
            let mut m: usize = 0;
            while m < problem.fixes.len()
                invariant
                    k < problems.len(),
                    problem == problems@[k as int],
                    m <= problem.fixes.len(),
                    r@.map_values(|f: (String, String)| (f.0@, f.1@)) == dedup(before + fixes_view(problem.fixes@).take(m as int)),
                decreases problem.fixes.len() - m,
            {
                let fix = &problem.fixes[m];
                let ghost seen = r@.map_values(|f: (String, String)| (f.0@, f.1@));
                let ghost next = before + fixes_view(problem.fixes@).take(m as int + 1);
                assert(next.drop_last() =~= before + fixes_view(problem.fixes@).take(m as int));
                assert(next.last() == fix@);
                let mut found = false;
                let mut n: usize = 0;
                while n < r.len()
                    invariant
                        n <= r.len(),
                        seen == r@.map_values(|f: (String, String)| (f.0@, f.1@)),
                        found == (exists|q: int| 0 <= q < n && seen[q] == fix@),
                    decreases r.len() - n,
                {
                    assert(seen[n as int] == (r@[n as int].0@, r@[n as int].1@));
                    if r[n].0.eq(&fix.fix_type) && r[n].1.eq(&fix.fix_thing) {
                        found = true;
                    }
                    n = n + 1;
                }
                if !found {
                    r.push((fix.fix_type.clone(), fix.fix_thing.clone()));
                    assert(r@.map_values(|f: (String, String)| (f.0@, f.1@)) =~= seen.push(fix@));
                } else {
                    assert(seen.contains(fix@));
                }
                m = m + 1;
            }
            assert(ps.take(k as int + 1).drop_last() =~= ps.take(k as int));
            assert(fixes_view(problem.fixes@).take(m as int) =~= ps[k as int].fixes);
            k = k + 1;
        }
        assert(ps.take(k as int) =~= ps);
        r
    }

    /// The distinct fixes gathered by type: each type once, in order of
    /// first appearance, with its things in order of first appearance.
    pub fn unique_fixes(&self) -> (r: Vec<(String, Vec<String>)>)
        ensures
            r@.len() == dedup(fix_types(distinct_fixes(self@))).len(),
            forall|j: int| 0 <= j < r@.len() ==> #[trigger] r@[j].0@ == dedup(fix_types(distinct_fixes(self@)))[j]
                && strings_view(r@[j].1@) == things_of(distinct_fixes(self@), r@[j].0@),
    {
        let fixes = self.distinct_fixes();
        let ghost fs = fixes@.map_values(|f: (String, String)| (f.0@, f.1@));
        let mut all_types: Vec<String> = Vec::new();
        let mut k: usize = 0;
        while k < fixes.len()
            invariant
                k <= fixes.len(),
                fs == fixes@.map_values(|f: (String, String)| (f.0@, f.1@)),
                strings_view(all_types@) == fix_types(fs.take(k as int)),
            decreases fixes.len() - k,
        {
            all_types.push(fixes[k].0.clone());
            assert(fs.take(k as int + 1).drop_last() =~= fs.take(k as int));
            assert(strings_view(all_types@) =~= fix_types(fs.take(k as int)).push(fs[k as int].0));
            k = k + 1;
        }
        assert(fs.take(k as int) =~= fs);
        let types = dedup_strings(&all_types);
        let mut r: Vec<(String, Vec<String>)> = Vec::new();
        let mut j: usize = 0;
        while j < types.len()
            invariant
                j <= types.len(),
                fs == fixes@.map_values(|f: (String, String)| (f.0@, f.1@)),
                fs == distinct_fixes(self@),
                strings_view(types@) == dedup(fix_types(fs)),
                r@.len() == j,
                forall|q: int| 0 <= q < j ==> #[trigger] r@[q].0@ == dedup(fix_types(fs))[q]
                    && strings_view(r@[q].1@) == things_of(fs, r@[q].0@),
            decreases types.len() - j,
        {
            let fix_type = &types[j];
            let mut group: Vec<String> = Vec::new();
            let mut m: usize = 0;
            while m < fixes.len()
                invariant
                    m <= fixes.len(),
                    fs == fixes@.map_values(|f: (String, String)| (f.0@, f.1@)),
                    strings_view(group@) == things_of(fs.take(m as int), fix_type@),
                decreases fixes.len() - m,
            {
                assert(fs.take(m as int + 1).drop_last() =~= fs.take(m as int));
                if fixes[m].0.eq(fix_type) {
                    group.push(fixes[m].1.clone());
                    assert(strings_view(group@) =~= things_of(fs.take(m as int), fix_type@).push(fs[m as int].1));
                }
                m = m + 1;
            }
            assert(fs.take(m as int) =~= fs);
            assert(strings_view(types@)[j as int] == types@[j as int]@);
            r.push((fix_type.clone(), group));
            j = j + 1;
        }
        r
    }

    /// The number of distinct fixes needed for full support.
    pub fn fixes_required(&self) -> (r: usize)
        ensures
            r == distinct_fixes(self@).len(),
    {
        self.distinct_fixes().len()
    }

    /// Whether at most `nearly` distinct fixes are needed.
    pub fn is_nearly_success(&self, nearly: usize) -> (r: bool)
        ensures
            r == (distinct_fixes(self@).len() <= nearly),
    {
        self.fixes_required() <= nearly
    }

    /// Whether no result has run a sub-test.
    pub fn is_unknown(&self) -> (r: bool)
        ensures
            r == unknown(self@),
    {
        let mut i: usize = 0;
        while i < self.results.len()
            invariant
                i <= self.results.len(),
                forall|q: int| 0 <= q < i ==> self@[q].total_checks == 0,
            decreases self.results.len() - i,
        {
            if self.results[i].total_checks != 0 {
                assert(self@[i as int].total_checks != 0);
                return false;
            }
            i = i + 1;
        }
        true
    }

    /// Whether sub-tests were run and no result holds a problem.
    pub fn is_success(&self) -> (r: bool)
        ensures
            r == success(self@),
    {
        if self.is_unknown() {
            return false;
        }
        let mut i: usize = 0;
        while i < self.results.len()
            invariant
                i <= self.results.len(),
                !unknown(self@),
                forall|q: int| 0 <= q < i ==> self@[q].problems.len() == 0,
            decreases self.results.len() - i,
        {
            if self.results[i].problems.len() != 0 {
                assert(self@[i as int].problems.len() != 0);
                return false;
            }
            i = i + 1;
        }
        true
    }

    fn has_status(&self, code: ResultCode) -> (r: bool)
        ensures
            r == any_status(self@, code),
    {
        let mut i: usize = 0;
        while i < self.results.len()
            invariant
                i <= self.results.len(),
                forall|q: int| 0 <= q < i ==> self@[q].status != code,
            decreases self.results.len() - i,
        {
            if self.results[i].status == code {
                assert(self@[i as int].status == code);
                return true;
            }
            i = i + 1;
        }
        false
    }

    /// The level of support that the results show.
    pub fn support_level(&self) -> (r: SupportLevel)
        ensures
            r == support_of(self@),
    {
        if self.has_status(ResultCode::StopNow) {
            SupportLevel::NotAttempted
        } else if self.is_unknown() {
            SupportLevel::Indeterminate
        } else if self.is_success() {
            SupportLevel::Complete
        } else if self.has_status(ResultCode::Fail) {
            SupportLevel::Unsupported
        } else if self.has_status(ResultCode::Warn) {
            SupportLevel::Incomplete
        } else {
            SupportLevel::Supported
        }
    }

    /// The weighted mean of the scores, in thousandths of a percent, rounded
    /// down; none when the weights add up to zero.
    pub fn score(&self) -> (r: Option<u64>)
        requires
            self.wf(),
        ensures
            total_weight(self@) == 0 ==> r is None,
            total_weight(self@) > 0 ==> r == Some((weighted_scores(self@) / total_weight(self@)) as u64),
            r matches Some(v) ==> v <= 100_000,
    {
        let mut weights: u128 = 0;
        let mut scores: u128 = 0;
        let mut i: usize = 0;
        while i < self.results.len()
            invariant
                i <= self.results.len(),
                self.wf(),
                weights as nat == total_weight(self@.take(i as int)),
                scores as nat == weighted_scores(self@.take(i as int)),
                weights <= i as nat * 255,
                scores <= i as nat * 25_500_000,
                scores <= weights * 100_000,
            decreases self.results.len() - i,
        {
            let result = &self.results[i];
            assert(self.results@[i as int].score.wf());
            assert(self@.take(i as int + 1).drop_last() =~= self@.take(i as int));
            let numerator = result.score.numerator as u128;
            let denominator = result.score.denominator as u128;
            assert(numerator * 100_000 <= denominator * 100_000) by (nonlinear_arith)
                requires numerator <= denominator;
            let scaled = numerator * 100_000 / denominator;
            assert(scaled <= 100_000) by (nonlinear_arith)
                requires scaled as int == (numerator as int * 100_000) / denominator as int, numerator <= denominator, denominator > 0;
            let weight = result.weight as u128;
            assert(weight * scaled <= 25_500_000) by (nonlinear_arith)
                requires weight <= 255, scaled <= 100_000;
            assert(weight * scaled <= weight * 100_000) by (nonlinear_arith)
                requires scaled <= 100_000;
            weights = weights + weight;
            scores = scores + weight * scaled;
            i = i + 1;
        }
        assert(self@.take(i as int) =~= self@);
        if weights == 0 {
            None
        } else {
            assert(scores / weights <= 100_000) by (nonlinear_arith)
                requires scores <= weights * 100_000, weights > 0;
            Some((scores / weights) as u64)
        }
    }
}

impl Reporter {
    /// A summary of the language support in one sentence.
    pub fn to_summary_string(&self, language: &Language) -> (r: String)
        requires
            self.wf(),
        ensures
            r@ == summary_sentence(self@, language@.id, language@.name),
    {
        let mut who = language.id.clone();
        who.append(" (");
        who.append(language.name.as_str());
        who.append(")");
        let level = self.support_level();
        let percent = match self.score() {
            Some(v) => {
                let q = v / 1000;
                let rem = v % 1000;
                decimal_string(if rem > 500 || (rem == 500 && q % 2 == 1) { q + 1 } else { q })
            },
            None => string_of("NaN"),
        };
        let fixes = decimal_string(self.fixes_required() as u64);
        match level {
            SupportLevel::Complete => {
                let mut r = string_of("Font has complete support for ");
                r.append(who.as_str());
                r.append(": 100%");
                r
            },
            SupportLevel::Supported => {
                let mut r = string_of("Font fully supports ");
                r.append(who.as_str());
                r.append(": ");
                r.append(percent.as_str());
                r.append("%");
                r
            },
            SupportLevel::Incomplete => {
                let mut r = string_of("Font partially supports ");
                r.append(who.as_str());
                r.append(": ");
                r.append(percent.as_str());
                r.append("% (");
                r.append(fixes.as_str());
                r.append(" fixes required)");
                r
            },
            SupportLevel::Unsupported => {
                let mut r = string_of("Font does not support ");
                r.append(who.as_str());
                r.append(": ");
                r.append(percent.as_str());
                r.append("% (");
                r.append(fixes.as_str());
                r.append(" fixes required)");
                r
            },
            SupportLevel::NotAttempted => {
                let mut r = string_of("Font does not attempt to support ");
                r.append(who.as_str());
                r
            },
            SupportLevel::Indeterminate => {
                let mut r = string_of("Cannot determine whether font supports ");
                r.append(who.as_str());
                r
            },
        }
    }
}

proof fn lemma_no_problems(rs: Seq<CheckResultView>)
    requires
        forall|i: int| 0 <= i < rs.len() ==> rs[i].problems.len() == 0,
    ensures
        all_problems(rs).len() == 0,
    decreases rs.len(),
{
    if rs.len() > 0 {
        lemma_no_problems(rs.drop_last());
    }
}

/// When sub-tests ran and no result holds a problem, no fix is needed.
pub proof fn lemma_success_needs_no_fixes(rs: Seq<CheckResultView>)
    requires
        success(rs),
    ensures
        distinct_fixes(rs).len() == 0,
{
    lemma_no_problems(rs);
    assert(all_problems(rs) =~= Seq::<ProblemView>::empty());
    assert(problem_fixes(Seq::<ProblemView>::empty()) =~= Seq::<(Seq<char>, Seq<char>)>::empty());
    assert(dedup(Seq::<(Seq<char>, Seq<char>)>::empty()) =~= Seq::<(Seq<char>, Seq<char>)>::empty());
}

/// When no sub-test ran, and every `StopNow` result ran a sub-test, the
/// support level is `Indeterminate`.
pub proof fn lemma_unknown_is_indeterminate(rs: Seq<CheckResultView>)
    requires
        unknown(rs),
        forall|i: int| 0 <= i < rs.len() && rs[i].status == ResultCode::StopNow ==> rs[i].total_checks > 0,
    ensures
        support_of(rs) == SupportLevel::Indeterminate,
{
    assert(!any_status(rs, ResultCode::StopNow));
}

/// The number of things in the groups of the given types, summed.
pub open spec fn group_total(fixes: Seq<(Seq<char>, Seq<char>)>, types: Seq<Seq<char>>) -> nat
    decreases types.len(),
{
    if types.len() == 0 {
        0
    } else {
        group_total(fixes, types.drop_last()) + things_of(fixes, types.last()).len()
    }
}

/// How many times `t` occurs in `items`.
pub open spec fn occurrences(items: Seq<Seq<char>>, t: Seq<char>) -> nat
    decreases items.len(),
{
    if items.len() == 0 {
        0
    } else {
        occurrences(items.drop_last(), t) + if items.last() == t { 1nat } else { 0nat }
    }
}

proof fn lemma_dedup_contains(items: Seq<Seq<char>>, t: Seq<char>)
    ensures
        dedup(items).contains(t) == items.contains(t),
        occurrences(dedup(items), t) == if items.contains(t) { 1nat } else { 0nat },
    decreases items.len(),
{
    if items.len() > 0 {
        let rest = items.drop_last();
        lemma_dedup_contains(rest, t);
        lemma_dedup_contains(rest, items.last());
        assert(items =~= rest.push(items.last()));
        assert(items.contains(t) == (rest.contains(t) || items.last() == t)) by {
            if items.contains(t) {
                let k = choose|k: int| 0 <= k < items.len() && items[k] == t;
                if k < rest.len() {
                    assert(rest[k] == t);
                }
            }
            if rest.contains(t) {
                let k = choose|k: int| 0 <= k < rest.len() && rest[k] == t;
                assert(items[k] == t);
            }
            if items.last() == t {
                assert(items[items.len() - 1] == t);
            }
        }
        let d = dedup(rest);
        if !d.contains(items.last()) {
            let e = d.push(items.last());
            assert(e.drop_last() =~= d);
            assert(e.contains(t) == (d.contains(t) || items.last() == t)) by {
                if e.contains(t) {
                    let k = choose|k: int| 0 <= k < e.len() && e[k] == t;
                    if k < d.len() {
                        assert(d[k] == t);
                    }
                }
                if d.contains(t) {
                    let k = choose|k: int| 0 <= k < d.len() && d[k] == t;
                    assert(e[k] == t);
                }
                if items.last() == t {
                    assert(e[e.len() - 1] == t);
                }
            }
        }
    }
}

proof fn lemma_things_absent(fixes: Seq<(Seq<char>, Seq<char>)>, t: Seq<char>)
    requires
        !fix_types(fixes).contains(t),
    ensures
        things_of(fixes, t).len() == 0,
    decreases fixes.len(),
{
    if fixes.len() > 0 {
        let rest = fixes.drop_last();
        assert(fix_types(fixes) == fix_types(rest).push(fixes.last().0));
        assert(fix_types(fixes)[fix_types(fixes).len() - 1] == fixes.last().0);
        assert forall|k: int| 0 <= k < fix_types(rest).len() implies fix_types(rest)[k] != t by {
            assert(fix_types(fixes)[k] == fix_types(rest)[k]);
        }
        lemma_things_absent(rest, t);
    }
}

proof fn lemma_group_total_step(fixes: Seq<(Seq<char>, Seq<char>)>, x: (Seq<char>, Seq<char>), types: Seq<Seq<char>>)
    ensures
        group_total(fixes.push(x), types) == group_total(fixes, types) + occurrences(types, x.0),
    decreases types.len(),
{
    if types.len() > 0 {
        lemma_group_total_step(fixes, x, types.drop_last());
        assert(fixes.push(x).drop_last() =~= fixes);
    }
}

/// Every fix belongs to exactly one group of `unique_fixes`: the groups
/// hold as many things as there are fixes.
proof fn lemma_groups_hold_every_fix(fixes: Seq<(Seq<char>, Seq<char>)>)
    ensures
        group_total(fixes, dedup(fix_types(fixes))) == fixes.len(),
    decreases fixes.len(),
{
    if fixes.len() > 0 {
        let rest = fixes.drop_last();
        let x = fixes.last();
        lemma_groups_hold_every_fix(rest);
        assert(rest.push(x) =~= fixes);
        let types = fix_types(fixes);
        assert(types.drop_last() == fix_types(rest));
        let d = dedup(fix_types(rest));
        lemma_dedup_contains(fix_types(rest), x.0);
        lemma_group_total_step(rest, x, dedup(types));
        if d.contains(x.0) {
            assert(dedup(types) == d);
        } else {
            assert(dedup(types) == d.push(x.0));
            assert(d.push(x.0).drop_last() =~= d);
            lemma_group_total_step(rest, x, d);
            lemma_things_absent(rest, x.0);
            assert(things_of(rest, x.0).len() == 0);
            assert(occurrences(d.push(x.0), x.0) == occurrences(d, x.0) + 1);
        }
    }
}

/// The number of fixes required is the number of things over all the
/// groups that `unique_fixes` gives.
pub proof fn lemma_fixes_required_is_group_total(rs: Seq<CheckResultView>)
    ensures
        group_total(distinct_fixes(rs), dedup(fix_types(distinct_fixes(rs)))) == distinct_fixes(rs).len(),
{
    lemma_groups_hold_every_fix(distinct_fixes(rs));
}

impl Default for Reporter {
    fn default() -> (r: Self)
        ensures
            r@ == Seq::<CheckResultView>::empty(),
    {
        Reporter::new()
    }
}

/// How well a font supports a language.
#[derive(Debug, Clone, Copy, PartialEq, Eq, Structural)]
pub enum SupportLevel {
    /// Nothing can be improved.
    Complete,
    /// No failures or warnings, but some optional checks were skipped.
    Supported,
    /// Warnings but no failures: usable, with gaps.
    Incomplete,
    /// Failures: not usable for the language.
    Unsupported,
    /// Basic checks failed: the font does not attempt the language.
    NotAttempted,
    /// No check could be run.
    Indeterminate,
}

} // verus!
