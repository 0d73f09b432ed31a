//! Whether marks attach to their bases once shaped.
use vstd::prelude::*;

use crate::checker::{least_codepoint, shaped, Checker, FontView};
use crate::reporter::{plain_problem, problems_view, ContextView, Fix, Problem, ProblemContext, ProblemView};
use crate::shaping::{describe_input, inputs_view, run_view, runs_view, InputView, ShapedGlyph, ShapingInput};
use crate::text::{contains_char, decimal, decimal_string, join, join_strings, push_char, string_of, strings_view};
use crate::unicode::{char_from_u32, general_category, general_category_of, NONSPACING_MARK};
use crate::GlyphId;

verus! {

/// The dotted circle, U+25CC, shown by shapers in place of a missing base.
pub const DOTTED_CIRCLE: u32 = 0x25CC;

/// Checks that, once each text is shaped, no nonspacing mark sits at the
/// origin and no dotted circle was inserted before a mark.
#[derive(Debug, Clone)]
pub struct NoOrphanedMarks {
    /// The texts to shape.
    pub test_strings: Vec<ShapingInput>,
    /// Whether the language has exemplar data; if so, `.notdef` glyphs are
    /// left to the coverage checks and not reported here.
    pub has_orthography: bool,
}

/// The contents of a [`NoOrphanedMarks`].
pub struct OrphansView {
    pub test_strings: Seq<InputView>,
    pub has_orthography: bool,
}

impl View for NoOrphanedMarks {
    type V = OrphansView;

    open spec fn view(&self) -> OrphansView {
        OrphansView { test_strings: inputs_view(self.test_strings@), has_orthography: self.has_orthography }
    }
}

/// What the mark check reads from a font: the glyph of the dotted circle,
/// the character map and the glyph names.
pub struct MarkEnv {
    pub dotted_circle: Option<GlyphId>,
    pub cmap: Map<u32, GlyphId>,
    pub names: Seq<Seq<char>>,
}

/// What the mark check reads from the checker.
pub open spec fn mark_env(checker: FontView) -> MarkEnv {
    MarkEnv {
        dotted_circle: if checker.cmap.contains_key(DOTTED_CIRCLE) { Some(checker.cmap[DOTTED_CIRCLE]) } else { None },
        cmap: checker.cmap,
        names: checker.glyph_names,
    }
}

/// The smallest codepoint that reaches a glyph through the character map.
pub open spec fn reverse_lookup(cmap: Map<u32, GlyphId>, gid: GlyphId) -> Option<u32> {
    if exists|c: u32| least_codepoint(cmap, gid, c) {
        Some(choose|c: u32| least_codepoint(cmap, gid, c))
    } else {
        None
    }
}

/// Whether a codepoint is a character of General_Category `Mn`.
pub open spec fn nonspacing_codepoint(cp: u32) -> bool {
    exists|ch: char| ch as u32 == cp && general_category_of(ch) == NONSPACING_MARK
}

/// Whether a glyph stands for a nonspacing mark in the character map.
pub open spec fn is_mark_glyph(cmap: Map<u32, GlyphId>, gid: GlyphId) -> bool {
    match reverse_lookup(cmap, gid) {
        Some(c) => nonspacing_codepoint(c),
        None => false,
    }
}

/// The name of a glyph, or `Glyph #n` where the font names none.
pub open spec fn glyph_label(names: Seq<Seq<char>>, gid: GlyphId) -> Seq<char> {
    if gid < names.len() {
        names[gid as int]
    } else {
        "Glyph #"@ + decimal(gid as nat)
    }
}

/// The name of the glyph before a mark, or `the base glyph` at the start.
pub open spec fn previous_label(names: Seq<Seq<char>>, previous: Option<GlyphId>) -> Seq<char> {
    match previous {
        Some(g) => glyph_label(names, g),
        None => "the base glyph"@,
    }
}

/// The problem for a `.notdef` glyph, with a fix that adds the character
/// it came from where that character can be found.
pub open spec fn notdef_problem(input: InputView, glyph: ShapedGlyph) -> ProblemView {
    ProblemView {
        fixes: if (glyph.cluster as int) < input.text.len() {
            seq![("add_codepoint"@, seq![input.text[glyph.cluster as int]])]
        } else {
            Seq::empty()
        },
        ..plain_problem("No Orphaned Marks"@, "notdef-produced"@, "Shaper produced a .notdef while "@ + describe_input(input))
    }
}

/// The problem for a dotted circle inserted before a mark.
pub open spec fn dotted_circle_problem(input: InputView, previous: Option<GlyphId>, gid: GlyphId) -> ProblemView {
    ProblemView {
        check_name: "No Orphaned Marks"@,
        message: "Shaper produced a dotted circle when "@ + describe_input(input),
        code: "dotted-circle-produced"@,
        terminal: false,
        context: ContextView::DottedCircle { previous, mark_glyph: gid },
        fixes: seq![("add_feature"@, "to avoid a dotted circle while "@ + describe_input(input))],
    }
}

/// The problem for a mark left at the origin.
pub open spec fn orphaned_mark_problem(input: InputView, base: Seq<char>, mark: Seq<char>) -> ProblemView {
    ProblemView {
        check_name: "No Orphaned Marks"@,
        message: "Shaper didn't attach "@ + mark + " to "@ + base + " when "@ + describe_input(input),
        code: "orphaned-mark"@,
        terminal: false,
        context: ContextView::OrphanedMark { text: input, mark, base },
        fixes: seq![("add_anchor"@, base + "/"@ + mark)],
    }
}

/// The problems found at glyph `i` of a run.
pub open spec fn glyph_problems(
    env: MarkEnv,
    has_orthography: bool,
    input: InputView,
    glyphs: Seq<ShapedGlyph>,
    i: int,
) -> Seq<ProblemView> {
    let glyph = glyphs[i];
    let previous = if i == 0 { None } else { Some(glyphs[i - 1].glyph_id) };
    let notdef = if glyph.glyph_id == 0 && !has_orthography {
        seq![notdef_problem(input, glyph)]
    } else {
        Seq::empty()
    };
    let mark = if !is_mark_glyph(env.cmap, glyph.glyph_id) {
        Seq::empty()
    } else if previous is Some && previous == env.dotted_circle && !input.text.contains('\u{25CC}') {
        seq![dotted_circle_problem(input, previous, glyph.glyph_id)]
    } else if glyph.x_offset == 0 && glyph.y_offset == 0 {
        seq![orphaned_mark_problem(input, previous_label(env.names, previous), glyph_label(env.names, glyph.glyph_id))]
    } else {
        Seq::empty()
    };
    notdef + mark
}

/// The problems found in the first `n` glyphs of a run.
pub open spec fn run_problems(
    env: MarkEnv,
    has_orthography: bool,
    input: InputView,
    glyphs: Seq<ShapedGlyph>,
    n: int,
) -> Seq<ProblemView>
    decreases n,
{
    if n <= 0 {
        Seq::empty()
    } else {
        run_problems(env, has_orthography, input, glyphs, n - 1) + glyph_problems(env, has_orthography, input, glyphs, n - 1)
    }
}

/// The problems found in one input; a run that failed counts as a
/// `.notdef` where those are reported.
pub open spec fn input_problems(
    env: MarkEnv,
    has_orthography: bool,
    input: InputView,
    run: Option<Seq<ShapedGlyph>>,
) -> Seq<ProblemView> {
    match run {
        Some(glyphs) => run_problems(env, has_orthography, input, glyphs, glyphs.len() as int),
        None => if has_orthography {
            Seq::empty()
        } else {
            seq![plain_problem("No Orphaned Marks"@, "notdef-produced"@, "Shaper produced a .notdef while "@ + describe_input(input))]
        },
    }
}

/// The problems found in the first `n` inputs, given the run of each.
pub open spec fn orphan_problems(
    env: MarkEnv,
    check: OrphansView,
    runs: Seq<Option<Seq<ShapedGlyph>>>,
    n: int,
) -> Seq<ProblemView>
    decreases n,
{
    if n <= 0 {
        Seq::empty()
    } else {
        orphan_problems(env, check, runs, n - 1) + input_problems(env, check.has_orthography, check.test_strings[n - 1], runs[n - 1])
    }
}

/// The run of each input, shaped in the font.
pub open spec fn input_runs(font: Seq<u8>, inputs: Seq<InputView>) -> Seq<Option<Seq<ShapedGlyph>>> {
    inputs.map_values(|i: InputView| shaped(font, i))
}

/// The description of a mark check.
pub open spec fn describe_orphans(check: OrphansView) -> Seq<char> {
    "Checks that, when "@ + join(check.test_strings.map_values(|i: InputView| describe_input(i)), " and "@)
        + ", no marks are left unattached"@
}

proof fn lemma_char_injective(a: char, b: char)
    requires
        a as u32 == b as u32,
    ensures
        a == b,
{
}

proof fn lemma_char_range(a: char)
    ensures
        (a as u32) < 0xD800 || (0xE000 <= (a as u32) && (a as u32) <= 0x10FFFF),
{
}

proof fn lemma_least_unique(cmap: Map<u32, GlyphId>, gid: GlyphId, c: u32)
    requires
        least_codepoint(cmap, gid, c),
    ensures
        reverse_lookup(cmap, gid) == Some(c),
{
    let d = choose|d: u32| least_codepoint(cmap, gid, d);
    assert(least_codepoint(cmap, gid, d));
    if d < c {
        assert(cmap[d] != gid);
    } else if c < d {
        assert(cmap[c] != gid);
    }
}

/// The name of a glyph, or `Glyph #n` where the font names none.
fn glyph_name(checker: &Checker, gid: GlyphId) -> (r: String)
    ensures
        r@ == glyph_label(strings_view(checker.glyph_names@), gid),
{
    if (gid as usize) < checker.glyph_names.len() {
        checker.glyph_names[gid as usize].clone()
    } else {
        let mut r = string_of("Glyph #");
        let digits = decimal_string(gid as u64);
        r.append(digits.as_str());
        r
    }
}

/// Whether a glyph stands for a nonspacing mark in the character map.
fn mark_glyph(checker: &Checker, gid: GlyphId) -> (r: bool)
    requires
        checker.wf(),
    ensures
        r == is_mark_glyph(checker.cmap@, gid),
{
    match checker.codepoint_for(gid) {
        Some(c) => {
            proof {
                lemma_least_unique(checker.cmap@, gid, c);
            }
            match char_from_u32(c) {
                Some(ch) => {
                    let r = general_category(ch) == NONSPACING_MARK;
                    assert(r ==> nonspacing_codepoint(c));
                    assert(!r ==> !nonspacing_codepoint(c)) by {
                        if nonspacing_codepoint(c) {
                            let other = choose|other: char| other as u32 == c && general_category_of(other) == NONSPACING_MARK;
                            lemma_char_injective(other, ch);
                        }
                    }
                    r
                },
                None => {
                    assert(!nonspacing_codepoint(c)) by {
                        if nonspacing_codepoint(c) {
                            let other = choose|other: char| other as u32 == c && general_category_of(other) == NONSPACING_MARK;
                            lemma_char_range(other);
                        }
                    }
                    false
                },
            }
        },
        None => {
            assert(!exists|c: u32| least_codepoint(checker.cmap@, gid, c));
            false
        },
    }
}

/// The problem for a `.notdef` glyph.
fn notdef_at(input: &ShapingInput, description: &String, glyph: ShapedGlyph) -> (r: Problem)
    requires
        description@ == describe_input(input@),
    ensures
        r@ == notdef_problem(input@, glyph),
{
    let mut message = string_of("Shaper produced a .notdef while ");
    message.append(description.as_str());
    let mut problem = Problem::new("No Orphaned Marks", "notdef-produced", message);
    match input.char_at(glyph.cluster as usize) {
        Some(c) => {
            let mut thing = String::new();
            push_char(&mut thing, c);
            problem.fixes.push(Fix { fix_type: string_of("add_codepoint"), fix_thing: thing });
            assert(problem@.fixes =~= seq![("add_codepoint"@, seq![c])]);
        },
        None => {},
    }
    problem
}

/// The problem for a dotted circle inserted before a mark.
fn dotted_circle_at(input: &ShapingInput, description: &String, previous: Option<GlyphId>, gid: GlyphId) -> (r: Problem)
    requires
        description@ == describe_input(input@),
    ensures
        r@ == dotted_circle_problem(input@, previous, gid),
{
    let mut message = string_of("Shaper produced a dotted circle when ");
    message.append(description.as_str());
    let mut thing = string_of("to avoid a dotted circle while ");
    thing.append(description.as_str());
    let mut fixes: Vec<Fix> = Vec::new();
    fixes.push(Fix { fix_type: string_of("add_feature"), fix_thing: thing });
    let r = Problem {
        check_name: string_of("No Orphaned Marks"),
        message,
        code: string_of("dotted-circle-produced"),
        terminal: false,
        context: ProblemContext::DottedCircle { previous, mark_glyph: gid },
        fixes,
    };
    assert(r@.fixes =~= dotted_circle_problem(input@, previous, gid).fixes);
    r
}

/// The problem for a mark left at the origin.
fn orphaned_mark_at(input: &ShapingInput, description: &String, base: String, mark: String) -> (r: Problem)
    requires
        description@ == describe_input(input@),
    ensures
        r@ == orphaned_mark_problem(input@, base@, mark@),
{
    let mut message = string_of("Shaper didn't attach ");
    message.append(mark.as_str());
    message.append(" to ");
    message.append(base.as_str());
    message.append(" when ");
    message.append(description.as_str());
    let mut thing = base.clone();
    thing.append("/");
    thing.append(mark.as_str());
    let mut fixes: Vec<Fix> = Vec::new();
    fixes.push(Fix { fix_type: string_of("add_anchor"), fix_thing: thing });
    let r = Problem {
        check_name: string_of("No Orphaned Marks"),
        message,
        code: string_of("orphaned-mark"),
        terminal: false,
        context: ProblemContext::OrphanedMark { text: input.duplicate(), mark, base },
        fixes,
    };
    assert(r@.fixes =~= orphaned_mark_problem(input@, base@, mark@).fixes);
    r
}

impl NoOrphanedMarks {
    /// The problems found at glyph `j` of a run.
    fn glyph_problems_at(
        &self,
        checker: &Checker,
        input: &ShapingInput,
        description: &String,
        literal_dotted_circle: bool,
        dotted_circle: Option<GlyphId>,
        glyphs: &Vec<ShapedGlyph>,
        j: usize,
    ) -> (r: Vec<Problem>)
        requires
            checker.wf(),
            j < glyphs@.len(),
            description@ == describe_input(input@),
            literal_dotted_circle == input@.text.contains('\u{25CC}'),
            dotted_circle == mark_env(checker@).dotted_circle,
        ensures
            problems_view(r@) == glyph_problems(mark_env(checker@), self.has_orthography, input@, glyphs@, j as int),
    {
        let ghost expected = glyph_problems(mark_env(checker@), self.has_orthography, input@, glyphs@, j as int);
        let glyph = glyphs[j];
        let previous: Option<GlyphId> = if j == 0 { None } else { Some(glyphs[j - 1].glyph_id) };
        let mut r: Vec<Problem> = Vec::new();
        if glyph.glyph_id == 0 && !self.has_orthography {
            r.push(notdef_at(input, description, glyph));
        }
        let ghost notdefs = problems_view(r@);
        if mark_glyph(checker, glyph.glyph_id) {
            let after_dotted_circle = match (previous, dotted_circle) {
                (Some(p), Some(d)) => p == d,
                _ => false,
            };
            if after_dotted_circle && !literal_dotted_circle {
                r.push(dotted_circle_at(input, description, previous, glyph.glyph_id));
            } else if glyph.x_offset == 0 && glyph.y_offset == 0 {
                let base = match previous {
                    Some(p) => glyph_name(checker, p),
                    None => string_of("the base glyph"),
                };
                let mark = glyph_name(checker, glyph.glyph_id);
                r.push(orphaned_mark_at(input, description, base, mark));
            }
        }
        assert(problems_view(r@) =~= expected);
        r
    }

    /// The problems found, given the run of each text in order.
    pub fn problems_for(&self, checker: &Checker, runs: &Vec<Option<Vec<ShapedGlyph>>>) -> (r: Vec<Problem>)
        requires
            checker.wf(),
            runs@.len() == self.test_strings@.len(),
        ensures
            problems_view(r@) == orphan_problems(mark_env(checker@), self@, runs_view(runs@), self@.test_strings.len() as int),
    {
        let ghost env = mark_env(checker@);
        let ghost rv = runs_view(runs@);
        let dotted_circle = checker.glyph_for(DOTTED_CIRCLE);
        let mut problems: Vec<Problem> = Vec::new();
        let mut i: usize = 0;
        while i < self.test_strings.len()
            invariant
                i <= self.test_strings.len(),
                checker.wf(),
                env == mark_env(checker@),
                rv == runs_view(runs@),
                runs@.len() == self.test_strings@.len(),
                dotted_circle == env.dotted_circle,
                problems_view(problems@) == orphan_problems(env, self@, rv, i as int),
            decreases self.test_strings.len() - i,
        {
            let input = &self.test_strings[i];
            assert(self@.test_strings[i as int] == input@);
            assert(rv[i as int] == run_view(runs@[i as int]));
            let description = input.describe();
            let literal_dotted_circle = contains_char(input.text.as_str(), '\u{25CC}');
            let ghost start = problems_view(problems@);
            match &runs[i] {
                None => {
                    if !self.has_orthography {
                        let mut message = string_of("Shaper produced a .notdef while ");
                        message.append(description.as_str());
                        problems.push(Problem::new("No Orphaned Marks", "notdef-produced", message));
                    }
                    assert(problems_view(problems@) =~= start + input_problems(env, self.has_orthography, input@, rv[i as int]));
                },
                Some(glyphs) => {
                    let mut j: usize = 0;
                    while j < glyphs.len()
                        invariant
                            j <= glyphs.len(),
                            checker.wf(),
                            env == mark_env(checker@),
                            dotted_circle == env.dotted_circle,
                            description@ == describe_input(input@),
                            literal_dotted_circle == input@.text.contains('\u{25CC}'),
                            problems_view(problems@) == start + run_problems(env, self.has_orthography, input@, glyphs@, j as int),
                        decreases glyphs.len() - j,
                    {
                        let mut found = self.glyph_problems_at(checker, input, &description, literal_dotted_circle, dotted_circle, glyphs, j);
                        let ghost before = problems@;
                        let ghost added = found@;
                        problems.append(&mut found);
                        assert(problems_view(problems@) =~= problems_view(before) + problems_view(added));
                        j = j + 1;
                    }
                    assert(problems_view(problems@) == start + input_problems(env, self.has_orthography, input@, rv[i as int]));
                },
            }
            i = i + 1;
        }
        problems
    }

    /// Shapes each text and reports misplaced marks; also returns the
    /// number of texts tested.
    pub fn execute(&self, checker: &Checker) -> (r: (Vec<Problem>, usize))
        requires
            checker.wf(),
        ensures
            problems_view(r.0@) == orphan_problems(mark_env(checker@), self@,
                input_runs(checker@.font, self@.test_strings), self@.test_strings.len() as int),
            r.1 == self.test_strings@.len(),
    {
        let mut runs: Vec<Option<Vec<ShapedGlyph>>> = Vec::new();
        let mut i: usize = 0;
        while i < self.test_strings.len()
            invariant
                i <= self.test_strings.len(),
                runs_view(runs@) == input_runs(checker@.font, self@.test_strings).take(i as int),
            decreases self.test_strings.len() - i,
        {
            let run = self.test_strings[i].shape(checker);
            let ghost v = run_view(run);
            assert(v == shaped(checker@.font, self@.test_strings[i as int]));
            let ghost before = runs@;
            runs.push(run);
            assert(runs_view(runs@) =~= runs_view(before).push(v));
            assert(runs_view(runs@) =~= input_runs(checker@.font, self@.test_strings).take(i as int + 1));
            i = i + 1;
        }
        assert(input_runs(checker@.font, self@.test_strings).take(i as int) =~= input_runs(checker@.font, self@.test_strings));
        (self.problems_for(checker, &runs), self.test_strings.len())
    }

    /// Describes the check in words.
    pub fn describe(&self) -> (r: String)
        ensures
            r@ == describe_orphans(self@),
    {
        let mut descriptions: Vec<String> = Vec::new();
        let mut i: usize = 0;
        while i < self.test_strings.len()
            invariant
                i <= self.test_strings.len(),
                strings_view(descriptions@) == self@.test_strings.map_values(|x: InputView| describe_input(x)).take(i as int),
            decreases self.test_strings.len() - i,
        {
            let d = self.test_strings[i].describe();
            let ghost before = descriptions@;
            descriptions.push(d);
            assert(strings_view(descriptions@) =~= strings_view(before).push(d@));
            assert(strings_view(descriptions@) =~= self@.test_strings.map_values(|x: InputView| describe_input(x)).take(i as int + 1));
            i = i + 1;
        }
        assert(self@.test_strings.map_values(|x: InputView| describe_input(x)).take(i as int) =~= self@.test_strings.map_values(|x: InputView| describe_input(x)));
        let mut r = string_of("Checks that, when ");
        let joined = join_strings(&descriptions, " and ");
        r.append(joined.as_str());
        r.append(", no marks are left unattached");
        r
    }

    /// A mark check over the given texts.
    pub fn new(test_strings: Vec<ShapingInput>, has_orthography: bool) -> (r: Self)
        ensures
            r@ == (OrphansView { test_strings: inputs_view(test_strings@), has_orthography }),
    {
        NoOrphanedMarks { test_strings, has_orthography }
    }

    /// A copy of this check.
    pub fn duplicate(&self) -> (r: Self)
        ensures
            r@ == self@,
    {
        let mut test_strings: Vec<ShapingInput> = Vec::new();
        let mut i: usize = 0;
        while i < self.test_strings.len()
            invariant
                i <= self.test_strings.len(),
                inputs_view(test_strings@) == self@.test_strings.take(i as int),
            decreases self.test_strings.len() - i,
        {
            let ghost before = test_strings@;
            test_strings.push(self.test_strings[i].duplicate());
            assert(inputs_view(test_strings@) =~= inputs_view(before).push(self@.test_strings[i as int]));
            assert(inputs_view(test_strings@) =~= self@.test_strings.take(i as int + 1));
            i = i + 1;
        }
        assert(self@.test_strings.take(i as int) =~= self@.test_strings);
        NoOrphanedMarks { test_strings, has_orthography: self.has_orthography }
    }

    /// The short label of the check.
    pub fn name(&self) -> (r: String)
        ensures
            r@ == "No Orphaned Marks"@,
    {
        string_of("No Orphaned Marks")
    }

    /// A mark check always runs.
    pub fn should_skip(&self, checker: &Checker) -> (r: Option<String>)
        ensures
            r is None,
    {
        None
    }
}

} // verus!
