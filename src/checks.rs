//! Checks, and the implementations that they are made of.
use vstd::prelude::*;

pub mod codepoint_coverage;
pub mod no_orphaned_marks;
pub mod shaping_differs;

pub use codepoint_coverage::CodepointCoverage;
pub use no_orphaned_marks::NoOrphanedMarks;
pub use shaping_differs::ShapingDiffers;

use crate::checker::{Checker, FontView};
use crate::reporter::{plain_problem, problems_view, CheckResult, CheckResultView, Problem, ProblemView, ResultCode, Score};
use crate::text::string_of;
use codepoint_coverage::{coverage_problems, coverage_runs, describe_coverage, tested_strings, CoverageView};
use no_orphaned_marks::{describe_orphans, input_runs, mark_env, orphan_problems, OrphansView};
use shaping_differs::{describe_differs, differs_problems, pair_runs, skip_reason, DiffersView};

verus! {

/// One kind of sub-test that a check is made of.
pub trait CheckImplementation {
    /// What the implementation is, as a view.
    spec fn kind(&self) -> CheckTypeView;

    /// The short label of the implementation.
    fn name(&self) -> (r: String)
        ensures
            r@ == implementation_name(self.kind()),
    ;

    /// Describes the implementation in words.
    fn describe(&self) -> (r: String)
        ensures
            r@ == implementation_description(self.kind()),
    ;

    /// Why the implementation does not apply to the font, if it does not.
    fn should_skip(&self, checker: &Checker) -> (r: Option<String>)
        ensures
            match r {
                Some(s) => implementation_skip(self.kind(), checker@.features) == Some(s@),
                None => implementation_skip(self.kind(), checker@.features) is None,
            },
    ;

    /// Runs the implementation: the problems found and the number of
    /// sub-tests run.
    fn execute(&self, checker: &Checker) -> (r: (Vec<Problem>, usize))
        requires
            checker.wf(),
        ensures
            (problems_view(r.0@), r.1 as nat) == implementation_outcome(self.kind(), checker@),
    ;
}

/// How the problems of a check turn into its score.
#[derive(Debug, Clone, Copy, PartialEq, Eq, Structural)]
pub enum ScoringStrategy {
    /// The share of sub-tests that passed.
    Continuous,
    /// One if nothing failed, zero otherwise.
    AllOrNothing,
}

/// The implementations that a check can be made of.
#[derive(Debug, Clone)]
pub enum CheckType {
    CodepointCoverage(CodepointCoverage),
    NoOrphanedMarks(NoOrphanedMarks),
    ShapingDiffers(ShapingDiffers),
}

/// The contents of a [`CheckType`].
pub enum CheckTypeView {
    Coverage(CoverageView),
    Orphans(OrphansView),
    Differs(DiffersView),
}

impl View for CheckType {
    type V = CheckTypeView;

    open spec fn view(&self) -> CheckTypeView {
        match self {
            CheckType::CodepointCoverage(c) => CheckTypeView::Coverage(c@),
            CheckType::NoOrphanedMarks(o) => CheckTypeView::Orphans(o@),
            CheckType::ShapingDiffers(d) => CheckTypeView::Differs(d@),
        }
    }
}

/// The contents of each implementation of a sequence.
pub open spec fn check_types_view(v: Seq<CheckType>) -> Seq<CheckTypeView> {
    v.map_values(|t: CheckType| t@)
}

/// The short label of an implementation.
pub open spec fn implementation_name(t: CheckTypeView) -> Seq<char> {
    match t {
        CheckTypeView::Coverage(_) => "CodepointCoverage"@,
        CheckTypeView::Orphans(_) => "No Orphaned Marks"@,
        CheckTypeView::Differs(_) => "Shaping Differs"@,
    }
}

/// The description of an implementation.
pub open spec fn implementation_description(t: CheckTypeView) -> Seq<char> {
    match t {
        CheckTypeView::Coverage(c) => describe_coverage(c),
        CheckTypeView::Orphans(o) => describe_orphans(o),
        CheckTypeView::Differs(d) => describe_differs(d),
    }
}

/// Why an implementation is skipped in a font with the given feature tags.
pub open spec fn implementation_skip(t: CheckTypeView, features: Seq<Seq<char>>) -> Option<Seq<char>> {
    match t {
        CheckTypeView::Differs(d) => skip_reason(d, features),
        _ => None,
    }
}

/// The problems that an implementation finds in the checker's font, and
/// the number of sub-tests it runs.
pub open spec fn implementation_outcome(t: CheckTypeView, checker: FontView) -> (Seq<ProblemView>, nat) {
    let font = checker.font;
    match t {
        CheckTypeView::Coverage(c) => (
            coverage_problems(c, coverage_runs(font, tested_strings(c))),
            tested_strings(c).len(),
        ),
        CheckTypeView::Orphans(o) => (
            orphan_problems(mark_env(checker), o, input_runs(font, o.test_strings), o.test_strings.len() as int),
            o.test_strings.len(),
        ),
        CheckTypeView::Differs(d) => (
            differs_problems(d, pair_runs(font, d.pairs), d.pairs.len() as int),
            d.pairs.len(),
        ),
    }
}

impl CheckType {
    /// A copy of this implementation.
    pub fn duplicate(&self) -> (r: Self)
        ensures
            r@ == self@,
    {
        match self {
            CheckType::CodepointCoverage(c) => CheckType::CodepointCoverage(c.duplicate()),
            CheckType::NoOrphanedMarks(o) => CheckType::NoOrphanedMarks(o.duplicate()),
            CheckType::ShapingDiffers(d) => CheckType::ShapingDiffers(d.duplicate()),
        }
    }

    /// The short label of the implementation.
    pub fn name(&self) -> (r: String)
        ensures
            r@ == implementation_name(self@),
    {
        match self {
            CheckType::CodepointCoverage(c) => c.name(),
            CheckType::NoOrphanedMarks(o) => o.name(),
            CheckType::ShapingDiffers(d) => d.name(),
        }
    }

    /// Describes the implementation in words.
    pub fn describe(&self) -> (r: String)
        ensures
            r@ == implementation_description(self@),
    {
        match self {
            CheckType::CodepointCoverage(c) => c.describe(),
            CheckType::NoOrphanedMarks(o) => o.describe(),
            CheckType::ShapingDiffers(d) => d.describe(),
        }
    }

    /// Why the implementation does not apply to the font, if it does not.
    pub fn should_skip(&self, checker: &Checker) -> (r: Option<String>)
        ensures
            match r {
                Some(s) => implementation_skip(self@, checker@.features) == Some(s@),
                None => implementation_skip(self@, checker@.features) is None,
            },
    {
        match self {
            CheckType::CodepointCoverage(c) => c.should_skip(checker),
            CheckType::NoOrphanedMarks(o) => o.should_skip(checker),
            CheckType::ShapingDiffers(d) => d.should_skip(checker),
        }
    }

    /// Runs the implementation: the problems found and the number of sub-tests run.
    pub fn execute(&self, checker: &Checker) -> (r: (Vec<Problem>, usize))
        requires
            checker.wf(),
        ensures
            (problems_view(r.0@), r.1 as nat) == implementation_outcome(self@, checker@),
    {
        match self {
            CheckType::CodepointCoverage(c) => c.execute(checker),
            CheckType::NoOrphanedMarks(o) => o.execute(checker),
            CheckType::ShapingDiffers(d) => d.execute(checker),
        }
    }
}

impl CheckImplementation for CheckType {
    open spec fn kind(&self) -> CheckTypeView {
        self@
    }

    fn name(&self) -> String {
        CheckType::name(self)
    }

    fn describe(&self) -> String {
        CheckType::describe(self)
    }

    fn should_skip(&self, checker: &Checker) -> Option<String> {
        CheckType::should_skip(self, checker)
    }

    fn execute(&self, checker: &Checker) -> (Vec<Problem>, usize) {
        CheckType::execute(self, checker)
    }
}

impl CheckImplementation for CodepointCoverage {
    open spec fn kind(&self) -> CheckTypeView {
        CheckTypeView::Coverage(self@)
    }

    fn name(&self) -> String {
        CodepointCoverage::name(self)
    }

    fn describe(&self) -> String {
        CodepointCoverage::describe(self)
    }

    fn should_skip(&self, checker: &Checker) -> Option<String> {
        CodepointCoverage::should_skip(self, checker)
    }

    fn execute(&self, checker: &Checker) -> (Vec<Problem>, usize) {
        CodepointCoverage::execute(self, checker)
    }
}

impl CheckImplementation for NoOrphanedMarks {
    open spec fn kind(&self) -> CheckTypeView {
        CheckTypeView::Orphans(self@)
    }

    fn name(&self) -> String {
        NoOrphanedMarks::name(self)
    }

    fn describe(&self) -> String {
        NoOrphanedMarks::describe(self)
    }

    fn should_skip(&self, checker: &Checker) -> Option<String> {
        NoOrphanedMarks::should_skip(self, checker)
    }

    fn execute(&self, checker: &Checker) -> (Vec<Problem>, usize) {
        NoOrphanedMarks::execute(self, checker)
    }
}

impl CheckImplementation for ShapingDiffers {
    open spec fn kind(&self) -> CheckTypeView {
        CheckTypeView::Differs(self@)
    }

    fn name(&self) -> String {
        ShapingDiffers::name(self)
    }

    fn describe(&self) -> String {
        ShapingDiffers::describe(self)
    }

    fn should_skip(&self, checker: &Checker) -> Option<String> {
        ShapingDiffers::should_skip(self, checker)
    }

    fn execute(&self, checker: &Checker) -> (Vec<Problem>, usize) {
        ShapingDiffers::execute(self, checker)
    }
}

/// A behavioural check: implementations run together and scored as one.
#[derive(Debug, Clone)]
pub struct Check {
    /// The name of the check.
    pub name: String,
    /// The status of the check when it finds problems.
    pub severity: ResultCode,
    /// What the check does and why.
    pub description: String,
    /// How problems turn into the score.
    pub scoring_strategy: ScoringStrategy,
    /// The weight of the check in the language's score.
    pub weight: u8,
    /// The implementations to run, in order.
    pub implementations: Vec<CheckType>,
}

/// The contents of a [`Check`].
pub struct CheckView {
    pub name: Seq<char>,
    pub severity: ResultCode,
    pub description: Seq<char>,
    pub scoring_strategy: ScoringStrategy,
    pub weight: u8,
    pub implementations: Seq<CheckTypeView>,
}

impl View for Check {
    type V = CheckView;

    open spec fn view(&self) -> CheckView {
        CheckView {
            name: self.name@,
            severity: self.severity,
            description: self.description@,
            scoring_strategy: self.scoring_strategy,
            weight: self.weight,
            implementations: check_types_view(self.implementations@),
        }
    }
}

/// The contents of each check of a sequence.
pub open spec fn checks_view(v: Seq<Check>) -> Seq<CheckView> {
    v.map_values(|c: Check| c@)
}

/// `a + b`, held at the largest `usize`.
pub open spec fn saturating_sum(a: nat, b: nat) -> nat {
    if a + b > usize::MAX { usize::MAX as nat } else { a + b }
}

/// The problem that stands for a skipped implementation.
pub open spec fn skip_problem(check_name: Seq<char>, reason: Seq<char>) -> ProblemView {
    plain_problem(check_name, "skip"@, "Check skipped: "@ + reason)
}

/// The problems and sub-test count of the first `n` implementations of a
/// check; a skipped one adds its skip problem and one sub-test.
pub open spec fn run_implementations(check: CheckView, checker: FontView, n: int) -> (Seq<ProblemView>, nat)
    decreases n,
{
    if n <= 0 {
        (Seq::empty(), 0)
    } else {
        let (problems, total) = run_implementations(check, checker, n - 1);
        let t = check.implementations[n - 1];
        match implementation_skip(t, checker.features) {
            Some(reason) => (problems.push(skip_problem(check.name, reason)), saturating_sum(total, 1)),
            None => {
                let (found, count) = implementation_outcome(t, checker);
                (problems + found, saturating_sum(total, count))
            },
        }
    }
}

/// The score of a check from its problems and sub-test count.
pub open spec fn score_of(strategy: ScoringStrategy, problems: nat, total: nat) -> Score {
    match strategy {
        ScoringStrategy::AllOrNothing => Score {
            numerator: if problems == 0 { 1 } else { 0 },
            denominator: 1,
        },
        ScoringStrategy::Continuous => if total == 0 {
            Score { numerator: 1, denominator: 1 }
        } else {
            Score {
                numerator: if problems >= total { 0 } else { (total - problems) as usize },
                denominator: total as usize,
            }
        },
    }
}

/// Whether some problem is terminal.
pub open spec fn any_terminal(problems: Seq<ProblemView>) -> bool {
    exists|i: int| 0 <= i < problems.len() && problems[i].terminal
}

/// The status of a check from its problems and sub-test count.
pub open spec fn status_of(check: CheckView, problems: Seq<ProblemView>, total: nat) -> ResultCode {
    if total == 0 {
        ResultCode::Skip
    } else if problems.len() == 0 {
        ResultCode::Pass
    } else if check.scoring_strategy == ScoringStrategy::AllOrNothing && any_terminal(problems) {
        ResultCode::StopNow
    } else {
        check.severity
    }
}

/// The result of running a check in the checker's font. A check with one
/// implementation that is skipped is skipped as a whole, scoring one half.
pub open spec fn check_result(check: CheckView, checker: FontView) -> CheckResultView {
    let sole_skip = if check.implementations.len() == 1 {
        implementation_skip(check.implementations[0], checker.features)
    } else {
        None
    };
    match sole_skip {
        Some(reason) => CheckResultView {
            check_name: check.name,
            check_description: check.description,
            score: Score { numerator: 1, denominator: 2 },
            weight: check.weight,
            problems: seq![skip_problem(check.name, reason)],
            total_checks: 1,
            status: ResultCode::Skip,
        },
        None => {
            let (problems, total) = run_implementations(check, checker, check.implementations.len() as int);
            CheckResultView {
                check_name: check.name,
                check_description: check.description,
                score: score_of(check.scoring_strategy, problems.len(), total),
                weight: check.weight,
                problems,
                total_checks: total as usize,
                status: status_of(check, problems, total),
            }
        },
    }
}

pub(crate) proof fn lemma_run_bounded(check: CheckView, checker: FontView, n: int)
    ensures
        run_implementations(check, checker, n).1 <= usize::MAX,
    decreases n,
{
    if n > 0 {
        lemma_run_bounded(check, checker, n - 1);
    }
}

/// Copies of the checks, in order.
pub fn duplicate_checks(checks: &Vec<Check>) -> (r: Vec<Check>)
    ensures
        checks_view(r@) == checks_view(checks@),
{
    let mut r: Vec<Check> = Vec::new();
    let mut i: usize = 0;
    while i < checks.len()
        invariant
            i <= checks.len(),
            checks_view(r@) == checks_view(checks@).take(i as int),
        decreases checks.len() - i,
    {
        let c = checks[i].duplicate();
        let ghost before = r@;
        r.push(c);
        assert(checks_view(r@) =~= checks_view(before).push(checks@[i as int]@));
        assert(checks_view(r@) =~= checks_view(checks@).take(i as int + 1));
        i = i + 1;
    }
    assert(checks_view(checks@).take(i as int) =~= checks_view(checks@));
    r
}

/// The number of sub-tests that the first `n` implementations run, where a
/// skipped one counts as one.
pub open spec fn sub_test_sum(check: CheckView, checker: FontView, n: int) -> nat
    decreases n,
{
    if n <= 0 {
        0
    } else {
        let t = check.implementations[n - 1];
        sub_test_sum(check, checker, n - 1) + match implementation_skip(t, checker.features) {
            Some(_) => 1,
            None => implementation_outcome(t, checker).1,
        }
    }
}

/// Whether no implementation of a check is a mark check, which may report
/// several problems for one text.
pub open spec fn one_problem_per_sub_test(check: CheckView) -> bool {
    forall|i: int| 0 <= i < check.implementations.len() ==> !(check.implementations[i] is Orphans)
}

proof fn lemma_sum_monotone(check: CheckView, checker: FontView, m: int, n: int)
    requires
        0 <= m <= n,
    ensures
        sub_test_sum(check, checker, m) <= sub_test_sum(check, checker, n),
    decreases n - m,
{
    if m < n {
        lemma_sum_monotone(check, checker, m, n - 1);
    }
}

proof fn lemma_run_is_sum(check: CheckView, checker: FontView, n: int)
    requires
        0 <= n,
        sub_test_sum(check, checker, n) <= usize::MAX,
    ensures
        run_implementations(check, checker, n).1 == sub_test_sum(check, checker, n),
    decreases n,
{
    if n > 0 {
        lemma_sum_monotone(check, checker, n - 1, n);
        lemma_run_is_sum(check, checker, n - 1);
    }
}

proof fn lemma_differs_count(d: DiffersView, runs: Seq<(Option<Seq<crate::shaping::ShapedGlyph>>, Option<Seq<crate::shaping::ShapedGlyph>>)>, n: int)
    requires
        0 <= n,
    ensures
        differs_problems(d, runs, n).len() <= n,
    decreases n,
{
    if n > 0 {
        lemma_differs_count(d, runs, n - 1);
    }
}

proof fn lemma_coverage_count(c: CoverageView, runs: Seq<Option<Seq<crate::shaping::ShapedGlyph>>>)
    ensures
        coverage_problems(c, runs).len() <= tested_strings(c).len(),
{
    codepoint_coverage::lemma_missing_len(tested_strings(c), runs);
}

proof fn lemma_problems_within_sum(check: CheckView, checker: FontView, n: int)
    requires
        0 <= n <= check.implementations.len(),
        one_problem_per_sub_test(check),
    ensures
        run_implementations(check, checker, n).0.len() <= sub_test_sum(check, checker, n),
    decreases n,
{
    if n > 0 {
        lemma_problems_within_sum(check, checker, n - 1);
        let t = check.implementations[n - 1];
        match t {
            CheckTypeView::Coverage(c) => {
                lemma_coverage_count(c, coverage_runs(checker.font, tested_strings(c)));
            },
            CheckTypeView::Differs(d) => {
                lemma_differs_count(d, pair_runs(checker.font, d.pairs), d.pairs.len() as int);
            },
            CheckTypeView::Orphans(_) => {
                assert(!(check.implementations[n - 1] is Orphans));
            },
        }
    }
}

/// The sub-test count of a result is the sum of the sub-tests that its
/// implementations ran (a skipped one counting as one), where that sum fits
/// in a `usize`.
pub proof fn lemma_total_is_sum_of_sub_tests(check: CheckView, checker: FontView)
    requires
        sub_test_sum(check, checker, check.implementations.len() as int) <= usize::MAX,
    ensures
        check_result(check, checker).total_checks == sub_test_sum(check, checker, check.implementations.len() as int),
{
    lemma_run_is_sum(check, checker, check.implementations.len() as int);
    if check.implementations.len() == 1 {
        assert(sub_test_sum(check, checker, 0) == 0);
    }
}

/// A continuous check none of whose implementations is a mark check holds
/// no more problems than sub-tests, where the sub-test count fits in a `usize`.
pub proof fn lemma_problems_at_most_sub_tests(check: CheckView, checker: FontView)
    requires
        check.scoring_strategy == ScoringStrategy::Continuous,
        one_problem_per_sub_test(check),
        sub_test_sum(check, checker, check.implementations.len() as int) <= usize::MAX,
    ensures
        check_result(check, checker).problems.len() <= check_result(check, checker).total_checks,
{
    lemma_total_is_sum_of_sub_tests(check, checker);
    lemma_problems_within_sum(check, checker, check.implementations.len() as int);
}

/// One problem fewer never lowers a check's score: the denominator stays
/// and the numerator does not shrink.
pub proof fn lemma_fewer_problems_no_lower_score(strategy: ScoringStrategy, problems: nat, total: nat)
    requires
        problems > 0,
        total <= usize::MAX,
    ensures
        score_of(strategy, (problems - 1) as nat, total).denominator == score_of(strategy, problems, total).denominator,
        score_of(strategy, (problems - 1) as nat, total).numerator >= score_of(strategy, problems, total).numerator,
{
}

/// A check with a `StopNow` status ran a sub-test.
pub proof fn lemma_stop_ran_sub_tests(check: CheckView, checker: FontView)
    ensures
        check_result(check, checker).status == ResultCode::StopNow ==> check_result(check, checker).total_checks > 0,
{
    lemma_run_bounded(check, checker, check.implementations.len() as int);
}

impl Check {
    /// A copy of this check.
    pub fn duplicate(&self) -> (r: Self)
        ensures
            r@ == self@,
    {
        let mut implementations: Vec<CheckType> = Vec::new();
        let mut i: usize = 0;
        while i < self.implementations.len()
            invariant
                i <= self.implementations.len(),
                check_types_view(implementations@) == self@.implementations.take(i as int),
            decreases self.implementations.len() - i,
        {
            let t = self.implementations[i].duplicate();
            let ghost before = implementations@;
            implementations.push(t);
            assert(check_types_view(implementations@) =~= check_types_view(before).push(self@.implementations[i as int]));
            assert(check_types_view(implementations@) =~= self@.implementations.take(i as int + 1));
            i = i + 1;
        }
        assert(self@.implementations.take(i as int) =~= self@.implementations);
        Check {
            name: self.name.clone(),
            severity: self.severity,
            description: self.description.clone(),
            scoring_strategy: self.scoring_strategy,
            weight: self.weight,
            implementations,
        }
    }

    /// Runs every implementation in order and scores the outcome.
    pub fn execute(&self, checker: &Checker) -> (r: CheckResult)
        requires
            checker.wf(),
        ensures
            r@ == check_result(self@, checker@),
            r.score.wf(),
    {
        let ghost features = checker@.features;
        let mut problems: Vec<Problem> = Vec::new();
        let mut total_checks: usize = 0;
        let mut i: usize = 0;
        while i < self.implementations.len()
            invariant
                i <= self.implementations.len(),
                checker.wf(),
                features == checker@.features,
                (problems_view(problems@), total_checks as nat) == run_implementations(self@, checker@, i as int),
                self.implementations.len() == 1 ==> (i == 0 || implementation_skip(self@.implementations[0], features) is None),
            decreases self.implementations.len() - i,
        {
            let implementation = &self.implementations[i];
            assert(self@.implementations[i as int] == implementation@);
            let ghost before = problems@;
            match implementation.should_skip(checker) {
                Some(reason) => {
                    let mut message = string_of("Check skipped: ");
                    message.append(reason.as_str());
                    let skip = Problem::new(self.name.as_str(), "skip", message);
                    if self.implementations.len() == 1 {
                        let mut skipped: Vec<Problem> = Vec::new();
                        skipped.push(skip);
                        let r = CheckResult {
                            check_name: self.name.clone(),
                            check_description: self.description.clone(),
                            status: ResultCode::Skip,
                            score: Score { numerator: 1, denominator: 2 },
                            weight: self.weight,
                            problems: skipped,
                            total_checks: 1,
                        };
                        assert(r@.problems =~= seq![skip_problem(self@.name, reason@)]);
                        return r;
                    }
                    problems.push(skip);
                    total_checks = total_checks.saturating_add(1);
                    assert(problems_view(problems@) =~= problems_view(before).push(skip_problem(self@.name, reason@)));
                },
                None => {
                    let (mut found, count) = implementation.execute(checker);
                    let ghost added = found@;
                    problems.append(&mut found);
                    total_checks = total_checks.saturating_add(count);
                    assert(problems_view(problems@) =~= problems_view(before) + problems_view(added));
                },
            }
            i = i + 1;
        }
        let ghost run = run_implementations(self@, checker@, i as int);
        proof {
            lemma_run_bounded(self@, checker@, i as int);
        }
        let n = problems.len();
        let score = match self.scoring_strategy {
            ScoringStrategy::AllOrNothing => Score { numerator: if n == 0 { 1 } else { 0 }, denominator: 1 },
            ScoringStrategy::Continuous => if total_checks == 0 {
                Score { numerator: 1, denominator: 1 }
            } else {
                Score { numerator: total_checks.saturating_sub(n), denominator: total_checks }
            },
        };
        let mut terminal = false;
        let mut k: usize = 0;
        while k < problems.len()
            invariant
                k <= problems.len(),
                terminal == (exists|q: int| 0 <= q < k && problems_view(problems@)[q].terminal),
            decreases problems.len() - k,
        {
            assert(problems_view(problems@)[k as int] == problems@[k as int]@);
            if problems[k].terminal {
                terminal = true;
            }
            k = k + 1;
        }
        let status = if total_checks == 0 {
            ResultCode::Skip
        } else if n == 0 {
            ResultCode::Pass
        } else if self.scoring_strategy == ScoringStrategy::AllOrNothing && terminal {
            ResultCode::StopNow
        } else {
            self.severity
        };
        CheckResult {
            check_name: self.name.clone(),
            check_description: self.description.clone(),
            status,
            score,
            weight: self.weight,
            problems,
            total_checks,
        }
    }
}

} // verus!
