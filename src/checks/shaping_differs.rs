//! Whether switching a behaviour changes how a text is shaped.
use vstd::prelude::*;

use crate::checker::{shaped, Checker};
use crate::reporter::{plain_problem, problems_view, Fix, Problem, ProblemView};
use crate::shaping::{describe_input, has_notdef, run_has_notdef, run_view, InputView, ShapedGlyph, ShapingInput};
use crate::text::{dedup, join, join_strings, string_of, strings_view};

verus! {

/// Whether the check is skipped when the font lacks a feature it names.
#[derive(Debug, Clone, Copy, PartialEq, Eq, Structural)]
pub struct FeaturesOptional(pub bool);

/// Whether a pair that shapes the same is let pass when it holds a `.notdef`.
#[derive(Debug, Clone, Copy, PartialEq, Eq, Structural)]
pub struct IgnoreNotdefs(pub bool);

/// Checks that each pair of inputs shapes differently.
#[derive(Debug, Clone)]
pub struct ShapingDiffers {
    /// The pairs to shape and compare.
    pub pairs: Vec<(ShapingInput, ShapingInput)>,
    /// Whether the check is skipped when the font lacks a feature it names.
    pub features_optional: FeaturesOptional,
    /// Whether a pair that shapes the same is let pass when it holds a `.notdef`.
    pub ignore_notdefs: IgnoreNotdefs,
}

/// The contents of a [`ShapingDiffers`].
pub struct DiffersView {
    pub pairs: Seq<(InputView, InputView)>,
    pub features_optional: bool,
    pub ignore_notdefs: bool,
}

/// The contents of each pair of a sequence.
pub open spec fn pairs_view(v: Seq<(ShapingInput, ShapingInput)>) -> Seq<(InputView, InputView)> {
    v.map_values(|p: (ShapingInput, ShapingInput)| (p.0@, p.1@))
}

impl View for ShapingDiffers {
    type V = DiffersView;

    open spec fn view(&self) -> DiffersView {
        DiffersView {
            pairs: pairs_view(self.pairs@),
            features_optional: self.features_optional.0,
            ignore_notdefs: self.ignore_notdefs.0,
        }
    }
}

/// Every feature setting of the pairs, in order: the first input's, then
/// the second's, pair by pair.
pub open spec fn pair_features(pairs: Seq<(InputView, InputView)>) -> Seq<Seq<char>>
    decreases pairs.len(),
{
    if pairs.len() == 0 {
        Seq::empty()
    } else {
        pair_features(pairs.drop_last()) + pairs.last().0.features + pairs.last().1.features
    }
}

/// The items that `have` does not hold, in order.
pub open spec fn missing_from(items: Seq<Seq<char>>, have: Seq<Seq<char>>) -> Seq<Seq<char>>
    decreases items.len(),
{
    if items.len() == 0 {
        Seq::empty()
    } else if have.contains(items.last()) {
        missing_from(items.drop_last(), have)
    } else {
        missing_from(items.drop_last(), have).push(items.last())
    }
}

/// Why the check is skipped in a font with the given feature tags, if it is.
pub open spec fn skip_reason(check: DiffersView, font_features: Seq<Seq<char>>) -> Option<Seq<char>> {
    let missing = missing_from(dedup(pair_features(check.pairs)), font_features);
    if !check.features_optional || missing.len() == 0 {
        None
    } else {
        Some("The following features are needed for this check, but are missing: "@ + join(missing, ", "@))
    }
}

/// The problem for a pair that shapes the same.
pub open spec fn same_problem(before: InputView, after: InputView) -> ProblemView {
    ProblemView {
        fixes: seq![("add_feature"@, "A rule such that "@ + describe_input(before) + " and "@ + describe_input(after)
            + " give different results"@)],
        ..plain_problem("Shaping Differs"@, "shaping-same"@, "When "@ + describe_input(before) + " and "@
            + describe_input(after) + ", the output is expected to be different, but was the same"@)
    }
}

/// The problems for the first `n` pairs, given the runs of both inputs of
/// each pair. Runs that differ pass; equal runs that hold a `.notdef` pass
/// when notdefs are ignored.
pub open spec fn differs_problems(
    check: DiffersView,
    runs: Seq<(Option<Seq<ShapedGlyph>>, Option<Seq<ShapedGlyph>>)>,
    n: int,
) -> Seq<ProblemView>
    decreases n,
{
    if n <= 0 {
        Seq::empty()
    } else {
        let rest = differs_problems(check, runs, n - 1);
        let (before, after) = runs[n - 1];
        if before != after || (check.ignore_notdefs && (has_notdef(before) || has_notdef(after))) {
            rest
        } else {
            rest.push(same_problem(check.pairs[n - 1].0, check.pairs[n - 1].1))
        }
    }
}

/// The runs of both inputs of each pair, shaped in the font.
pub open spec fn pair_runs(font: Seq<u8>, pairs: Seq<(InputView, InputView)>)
    -> Seq<(Option<Seq<ShapedGlyph>>, Option<Seq<ShapedGlyph>>)> {
    pairs.map_values(|p: (InputView, InputView)| (shaped(font, p.0), shaped(font, p.1)))
}

/// The glyphs of both runs of each pair.
pub open spec fn pair_runs_view(v: Seq<(Option<Vec<ShapedGlyph>>, Option<Vec<ShapedGlyph>>)>)
    -> Seq<(Option<Seq<ShapedGlyph>>, Option<Seq<ShapedGlyph>>)> {
    v.map_values(|p: (Option<Vec<ShapedGlyph>>, Option<Vec<ShapedGlyph>>)| (run_view(p.0), run_view(p.1)))
}

/// The description of a pair check.
pub open spec fn describe_differs(check: DiffersView) -> Seq<char> {
    "in the following situations, different results are produced: "@ + join(
        check.pairs.map_values(|p: (InputView, InputView)| describe_input(p.0) + " versus "@ + describe_input(p.1)),
        ", "@,
    )
}

/// Whether two runs hold the same glyphs with the same placement.
fn same_runs(a: &Option<Vec<ShapedGlyph>>, b: &Option<Vec<ShapedGlyph>>) -> (r: bool)
    ensures
        r == (run_view(*a) == run_view(*b)),
{
    match (a, b) {
        (Some(x), Some(y)) => {
            if x.len() != y.len() {
                return false;
            }
            let mut i: usize = 0;
            while i < x.len()
                invariant
                    i <= x.len(),
                    x.len() == y.len(),
                    run_view(*a) == Some(x@),
                    run_view(*b) == Some(y@),
                    forall|j: int| 0 <= j < i ==> x@[j] == y@[j],
                decreases x.len() - i,
            {
                if x[i] != y[i] {
                    return false;
                }
                i = i + 1;
            }
            assert(x@ =~= y@);
            true
        },
        (None, None) => true,
        _ => false,
    }
}

impl ShapingDiffers {
    /// A check that each pair shapes differently.
    pub fn new(
        pairs: Vec<(ShapingInput, ShapingInput)>,
        features_optional: FeaturesOptional,
        ignore_notdefs: IgnoreNotdefs,
    ) -> (r: Self)
        ensures
            r@ == (DiffersView {
                pairs: pairs_view(pairs@),
                features_optional: features_optional.0,
                ignore_notdefs: ignore_notdefs.0,
            }),
    {
        ShapingDiffers { pairs, features_optional, ignore_notdefs }
    }

    /// A copy of this check.
    pub fn duplicate(&self) -> (r: Self)
        ensures
            r@ == self@,
    {
        let mut pairs: Vec<(ShapingInput, ShapingInput)> = Vec::new();
        let mut i: usize = 0;
        while i < self.pairs.len()
            invariant
                i <= self.pairs.len(),
                pairs_view(pairs@) == self@.pairs.take(i as int),
            decreases self.pairs.len() - i,
        {
            assert(self@.pairs[i as int] == (self.pairs@[i as int].0@, self.pairs@[i as int].1@));
            let ghost before = pairs@;
            pairs.push((self.pairs[i].0.duplicate(), self.pairs[i].1.duplicate()));
            assert(pairs_view(pairs@) =~= pairs_view(before).push(self@.pairs[i as int]));
            assert(pairs_view(pairs@) =~= self@.pairs.take(i as int + 1));
            i = i + 1;
        }
        assert(self@.pairs.take(i as int) =~= self@.pairs);
        ShapingDiffers { pairs, features_optional: self.features_optional, ignore_notdefs: self.ignore_notdefs }
    }

    /// The short label of the check.
    pub fn name(&self) -> (r: String)
        ensures
            r@ == "Shaping Differs"@,
    {
        string_of("Shaping Differs")
    }

    /// Every feature setting of the pairs, in order.
    fn needed_features(&self) -> (r: Vec<String>)
        ensures
            strings_view(r@) == pair_features(self@.pairs),
    {
        let mut r: Vec<String> = Vec::new();
        let mut i: usize = 0;
        while i < self.pairs.len()
            invariant
                i <= self.pairs.len(),
                strings_view(r@) == pair_features(self@.pairs.take(i as int)),
            decreases self.pairs.len() - i,
        {
            let pair = &self.pairs[i];
            assert(self@.pairs.take(i as int + 1).drop_last() =~= self@.pairs.take(i as int));
            assert(self@.pairs[i as int] == (pair.0@, pair.1@));
            let ghost start = strings_view(r@);
            let mut k: usize = 0;
            while k < pair.0.features.len()
                invariant
                    k <= pair.0.features.len(),
                    strings_view(r@) == start + pair.0@.features.take(k as int),
                decreases pair.0.features.len() - k,
            {
                let ghost before = r@;
                r.push(pair.0.features[k].clone());
                assert(strings_view(r@) =~= strings_view(before).push(pair.0@.features[k as int]));
                assert(strings_view(r@) =~= start + pair.0@.features.take(k as int + 1));
                k = k + 1;
            }
            assert(pair.0@.features.take(k as int) =~= pair.0@.features);
            let ghost middle = strings_view(r@);
            let mut k: usize = 0;
            while k < pair.1.features.len()
                invariant
                    k <= pair.1.features.len(),
                    strings_view(r@) == middle + pair.1@.features.take(k as int),
                decreases pair.1.features.len() - k,
            {
                let ghost before = r@;
                r.push(pair.1.features[k].clone());
                assert(strings_view(r@) =~= strings_view(before).push(pair.1@.features[k as int]));
                assert(strings_view(r@) =~= middle + pair.1@.features.take(k as int + 1));
                k = k + 1;
            }
            assert(pair.1@.features.take(k as int) =~= pair.1@.features);
            i = i + 1;
        }
        assert(self@.pairs.take(i as int) =~= self@.pairs);
        r
    }

    /// Why the check is skipped: only where features are optional and the
    /// font lacks some of those that the pairs name.
    pub fn should_skip(&self, checker: &Checker) -> (r: Option<String>)
        ensures
            match r {
                Some(s) => skip_reason(self@, checker@.features) == Some(s@),
                None => skip_reason(self@, checker@.features) is None,
            },
    {
        if !self.features_optional.0 {
            return None;
        }
        let needed = crate::text::dedup_strings(&self.needed_features());
        let ghost nv = strings_view(needed@);
        let ghost have = checker@.features;
        let mut missing: Vec<String> = Vec::new();
        let mut i: usize = 0;
        while i < needed.len()
            invariant
                i <= needed.len(),
                nv == strings_view(needed@),
                have == checker@.features,
                strings_view(missing@) == missing_from(nv.take(i as int), have),
            decreases needed.len() - i,
        {
            assert(nv.take(i as int + 1).drop_last() =~= nv.take(i as int));
            if !checker.has_feature(&needed[i]) {
                let ghost before = missing@;
                missing.push(needed[i].clone());
                assert(strings_view(missing@) =~= strings_view(before).push(nv[i as int]));
            }
            i = i + 1;
        }
        assert(nv.take(i as int) =~= nv);
        if missing.len() == 0 {
            return None;
        }
        let mut reason = string_of("The following features are needed for this check, but are missing: ");
        let joined = join_strings(&missing, ", ");
        reason.append(joined.as_str());
        Some(reason)
    }

    /// The problems found, given the runs of both inputs of each pair.
    pub fn problems_for(&self, runs: &Vec<(Option<Vec<ShapedGlyph>>, Option<Vec<ShapedGlyph>>)>) -> (r: Vec<Problem>)
        requires
            runs@.len() == self.pairs@.len(),
        ensures
            problems_view(r@) == differs_problems(self@, pair_runs_view(runs@), self@.pairs.len() as int),
    {
        let ghost rv = pair_runs_view(runs@);
        let mut problems: Vec<Problem> = Vec::new();
        let mut i: usize = 0;
        while i < self.pairs.len()
            invariant
                i <= self.pairs.len(),
                runs@.len() == self.pairs@.len(),
                rv == pair_runs_view(runs@),
                problems_view(problems@) == differs_problems(self@, rv, i as int),
            decreases self.pairs.len() - i,
        {
            let (before_run, after_run) = (&runs[i].0, &runs[i].1);
            assert(rv[i as int] == (run_view(*before_run), run_view(*after_run)));
            let same = same_runs(before_run, after_run);
            let notdef = run_has_notdef(before_run) || run_has_notdef(after_run);
            if same && !(self.ignore_notdefs.0 && notdef) {
                let before = &self.pairs[i].0;
                let after = &self.pairs[i].1;
                assert(self@.pairs[i as int] == (before@, after@));
                let before_text = before.describe();
                let after_text = after.describe();
                let mut message = string_of("When ");
                message.append(before_text.as_str());
                message.append(" and ");
                message.append(after_text.as_str());
                message.append(", the output is expected to be different, but was the same");
                let mut problem = Problem::new("Shaping Differs", "shaping-same", message);
                let mut thing = string_of("A rule such that ");
                thing.append(before_text.as_str());
                thing.append(" and ");
                thing.append(after_text.as_str());
                thing.append(" give different results");
                problem.fixes.push(Fix { fix_type: string_of("add_feature"), fix_thing: thing });
                assert(problem@ == same_problem(before@, after@)) by {
                    assert(problem@.fixes =~= same_problem(before@, after@).fixes);
                }
                let ghost old_problems = problems@;
                problems.push(problem);
                assert(problems_view(problems@) =~= problems_view(old_problems).push(same_problem(before@, after@)));
            }
            i = i + 1;
        }
        problems
    }

    /// Shapes both inputs of each pair and reports pairs that shape the
    /// same; also returns the number of pairs tested.
    pub fn execute(&self, checker: &Checker) -> (r: (Vec<Problem>, usize))
        ensures
            problems_view(r.0@) == differs_problems(self@, pair_runs(checker@.font, self@.pairs), self@.pairs.len() as int),
            r.1 == self.pairs@.len(),
    {
        let mut runs: Vec<(Option<Vec<ShapedGlyph>>, Option<Vec<ShapedGlyph>>)> = Vec::new();
        let mut i: usize = 0;
        while i < self.pairs.len()
            invariant
                i <= self.pairs.len(),
                pair_runs_view(runs@) == pair_runs(checker@.font, self@.pairs).take(i as int),
            decreases self.pairs.len() - i,
        {
            assert(self@.pairs[i as int] == (self.pairs@[i as int].0@, self.pairs@[i as int].1@));
            let before = self.pairs[i].0.shape(checker);
            let after = self.pairs[i].1.shape(checker);
            let ghost v = (run_view(before), run_view(after));
            assert(v == (shaped(checker@.font, self@.pairs[i as int].0), shaped(checker@.font, self@.pairs[i as int].1)));
            let ghost old_runs = runs@;
            runs.push((before, after));
            assert(pair_runs_view(runs@) =~= pair_runs_view(old_runs).push(v));
            assert(pair_runs_view(runs@) =~= pair_runs(checker@.font, self@.pairs).take(i as int + 1));
            i = i + 1;
        }
        assert(pair_runs(checker@.font, self@.pairs).take(i as int) =~= pair_runs(checker@.font, self@.pairs));
        (self.problems_for(&runs), self.pairs.len())
    }

    /// Describes the check in words.
    pub fn describe(&self) -> (r: String)
        ensures
            r@ == describe_differs(self@),
    {
        let ghost items = self@.pairs.map_values(|p: (InputView, InputView)| describe_input(p.0) + " versus "@ + describe_input(p.1));
        let mut descriptions: Vec<String> = Vec::new();
        let mut i: usize = 0;
        while i < self.pairs.len()
            invariant
                i <= self.pairs.len(),
                items == self@.pairs.map_values(|p: (InputView, InputView)| describe_input(p.0) + " versus "@ + describe_input(p.1)),
                strings_view(descriptions@) == items.take(i as int),
            decreases self.pairs.len() - i,
        {
            assert(self@.pairs[i as int] == (self.pairs@[i as int].0@, self.pairs@[i as int].1@));
            let mut d = self.pairs[i].0.describe();
            d.append(" versus ");
            let other = self.pairs[i].1.describe();
            d.append(other.as_str());
            let ghost before = descriptions@;
            descriptions.push(d);
            assert(strings_view(descriptions@) =~= strings_view(before).push(items[i as int]));
            assert(strings_view(descriptions@) =~= items.take(i as int + 1));
            i = i + 1;
        }
        assert(items.take(i as int) =~= items);
        let mut r = string_of("in the following situations, different results are produced: ");
        let joined = join_strings(&descriptions, ", ");
        r.append(joined.as_str());
        r
    }
}

} // verus!
