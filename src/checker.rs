//! The context that checks run in: a font and what was read from it.
use vstd::prelude::*;

use std::collections::BTreeMap;

use harfrust::{shape, Buffer, Feature, Font, ShapeOptions, ShaperFont};

use crate::checks::{check_result, run_implementations, CheckTypeView, CheckView};
use crate::font::{
    charmap_pairs, glyph_name_of, gpos_feature_tags, gsub_feature_tags, maxp_glyph_count, read_font_tables,
};
use crate::language::{Language, LanguageView};
use crate::providers::{base_checks, mandatory_check};
use crate::reporter::{CheckResultView, Reporter, ResultCode};
use crate::shaping::{option_view, InputView, ShapedGlyph, ShapingInput};
use crate::text::{dedup, string_of, strings_view};
use crate::GlyphId;

verus! {

broadcast use vstd::std_specs::btree::group_btree_axioms, vstd::laws_cmp::group_laws_cmp;

/// What the shaper makes of a text in a font, with the given feature
/// settings and language; none where the font, a feature or the language
/// cannot be read.
pub uninterp spec fn shaping_of(
    font: Seq<u8>,
    text: Seq<char>,
    features: Seq<Seq<char>>,
    language: Option<Seq<char>>,
) -> Option<Seq<RawGlyph>>;

/// A glyph as the shaper gives it: id, cluster, x and y offsets, x and y advances.
pub type RawGlyph = (u32, u32, i32, i32, i32, i32);

/// The glyph records of a run.
pub open spec fn glyph_records(raw: Seq<RawGlyph>) -> Seq<ShapedGlyph> {
    raw.map_values(|g: RawGlyph| ShapedGlyph {
        glyph_id: g.0,
        cluster: g.1,
        x_offset: g.2,
        y_offset: g.3,
        x_advance: g.4,
        y_advance: g.5,
    })
}

/// What the shaper makes of an input in a font.
pub open spec fn shaped(font: Seq<u8>, input: InputView) -> Option<Seq<ShapedGlyph>> {
    match shaping_of(font, input.text, input.features, input.language) {
        Some(raw) => Some(glyph_records(raw)),
        None => None,
    }
}

/// Relies on harfrust: the font is read from its bytes at index 0, each
/// feature setting and the language are parsed with `FromStr`, the buffer's
/// direction and script are guessed, and `harfrust::shape` is run; the glyph
/// infos and positions are returned side by side.
#[verifier::external_body]
fn shape_text(font: &Vec<u8>, text: &str, features: &Vec<String>, language: &Option<String>) -> (r: Option<Vec<RawGlyph>>)
    ensures
        r matches Some(g) ==> shaping_of(font@, text@, strings_view(features@), option_view(*language)) == Some(g@),
        r is None ==> shaping_of(font@, text@, strings_view(features@), option_view(*language)) is None,
{
    let features = features.iter().map(|f| f.parse().ok()).collect::<Option<Vec<Feature>>>()?;
    let mut buffer = Buffer::new();
    buffer.push_str(text);
    if let Some(l) = language {
        buffer.set_language(Some(l.parse().ok()?));
    }
    buffer.guess_segment_properties();
    shape(&ShaperFont::new(&Font::new(font.clone(), 0)?), &mut buffer, ShapeOptions::new().features(&features)).ok()?;
    Some(buffer.glyph_infos().iter().zip(buffer.glyph_positions())
        .map(|(i, p)| (i.glyph_id, i.cluster, p.x_offset, p.y_offset, p.x_advance, p.y_advance)).collect())
}

/// The character map built from `(codepoint, glyph)` pairs; where a
/// codepoint comes twice, the first pair counts.
pub open spec fn cmap_of(pairs: Seq<(u32, GlyphId)>) -> Map<u32, GlyphId>
    decreases pairs.len(),
{
    if pairs.len() == 0 {
        Map::empty()
    } else {
        let m = cmap_of(pairs.drop_last());
        if m.contains_key(pairs.last().0) {
            m
        } else {
            m.insert(pairs.last().0, pairs.last().1)
        }
    }
}

/// `c` is the smallest codepoint that the character map sends to `gid`.
pub open spec fn least_codepoint(cmap: Map<u32, GlyphId>, gid: GlyphId, c: u32) -> bool {
    &&& cmap.contains_key(c)
    &&& cmap[c] == gid
    &&& forall|d: u32| cmap.contains_key(d) && d < c ==> cmap[d] != gid
}

/// The reverse map sends each glyph that the character map reaches to the
/// smallest codepoint that reaches it, and holds no other glyph.
pub open spec fn reverses(reversed: Map<GlyphId, u32>, cmap: Map<u32, GlyphId>) -> bool {
    &&& forall|g: GlyphId| #[trigger] reversed.contains_key(g) ==> least_codepoint(cmap, g, reversed[g])
    &&& forall|c: u32| #[trigger] cmap.contains_key(c) ==> reversed.contains_key(cmap[c])
}

/// A font, with the data that checks read from it.
pub struct Checker {
    /// The font file's bytes.
    pub font: Vec<u8>,
    /// The name of each glyph, by glyph id.
    pub glyph_names: Vec<String>,
    /// The OpenType feature tags that the font's layout tables hold.
    pub features: Vec<String>,
    /// The character map: codepoint to glyph id.
    pub cmap: BTreeMap<u32, GlyphId>,
    /// The smallest codepoint that reaches each glyph of the character map.
    pub reversed_cmap: BTreeMap<GlyphId, u32>,
}

/// What checks read of a checker: the font's bytes, its glyph names, its
/// feature tags and its character map.
pub struct FontView {
    pub font: Seq<u8>,
    pub glyph_names: Seq<Seq<char>>,
    pub features: Seq<Seq<char>>,
    pub cmap: Map<u32, GlyphId>,
}

impl View for Checker {
    type V = FontView;

    open spec fn view(&self) -> FontView {
        FontView {
            font: self.font@,
            glyph_names: crate::text::strings_view(self.glyph_names@),
            features: crate::text::strings_view(self.features@),
            cmap: self.cmap@,
        }
    }
}

impl Checker {
    /// The reverse map agrees with the character map.
    pub open spec fn wf(&self) -> bool {
        reverses(self.reversed_cmap@, self.cmap@)
    }

    /// A checker over the given font bytes and the parts read from them.
    pub fn from_parts(
        font: Vec<u8>,
        glyph_names: Vec<String>,
        features: Vec<String>,
        mappings: Vec<(u32, GlyphId)>,
    ) -> (r: Self)
        ensures
            r.wf(),
            r@.font == font@,
            r.glyph_names == glyph_names,
            r.features == features,
            r.cmap@ == cmap_of(mappings@),
    {
        let mut cmap: BTreeMap<u32, GlyphId> = BTreeMap::new();
        let mut reversed_cmap: BTreeMap<GlyphId, u32> = BTreeMap::new();
        let mut i: usize = 0;
        while i < mappings.len()
            invariant
                i <= mappings.len(),
                cmap@ == cmap_of(mappings@.take(i as int)),
                reverses(reversed_cmap@, cmap@),
            decreases mappings.len() - i,
        {
            let (c, g) = mappings[i];
            assert(mappings@.take(i as int + 1).drop_last() =~= mappings@.take(i as int));
            if !cmap.contains_key(&c) {
                let ghost old_cmap = cmap@;
                let ghost old_rev = reversed_cmap@;
                cmap.insert(c, g);
                match reversed_cmap.get(&g) {
                    Some(existing) => {
                        if c < *existing {
                            reversed_cmap.insert(g, c);
                        }
                    },
                    None => {
                        reversed_cmap.insert(g, c);
                    },
                }
                assert forall|h: GlyphId| #[trigger] reversed_cmap@.contains_key(h) implies least_codepoint(cmap@, h, reversed_cmap@[h]) by {
                    if h != g {
                        assert(old_rev.contains_key(h));
                        assert(least_codepoint(old_cmap, h, old_rev[h]));
                    } else if old_rev.contains_key(g) {
                        assert(least_codepoint(old_cmap, g, old_rev[g]));
                    } else {
                        assert forall|d: u32| cmap@.contains_key(d) && d < c implies cmap@[d] != g by {
                            if old_cmap.contains_key(d) && old_cmap[d] == g {
                                assert(old_rev.contains_key(old_cmap[d]));
                            }
                        }
                    }
                }
                assert forall|d: u32| #[trigger] cmap@.contains_key(d) implies reversed_cmap@.contains_key(cmap@[d]) by {
                    if d != c {
                        assert(old_cmap.contains_key(d));
                        assert(old_rev.contains_key(old_cmap[d]));
                    }
                }
            }
            i = i + 1;
        }
        assert(mappings@.take(mappings.len() as int) =~= mappings@);
        Checker { font, glyph_names, features, cmap, reversed_cmap }
    }

    /// A checker over a font file's bytes: its glyph names, layout feature
    /// tags and character map are read from its tables. Fails where the
    /// font's glyph count cannot be read.
    pub fn new(data: &[u8]) -> (r: Result<Self, String>)
        ensures
            r is Ok <==> maxp_glyph_count(data@) is Some,
            r matches Ok(c) ==> {
                &&& c.wf()
                &&& c@.font == data@
                &&& c@.glyph_names.len() == maxp_glyph_count(data@)->0
                &&& forall|g: int| 0 <= g < c@.glyph_names.len() ==> #[trigger] c@.glyph_names[g] == glyph_name_of(data@, g)
                &&& c@.features == dedup(gsub_feature_tags(data@) + gpos_feature_tags(data@))
                &&& c@.cmap == cmap_of(charmap_pairs(data@))
            },
    {
        match read_font_tables(data) {
            Some(tables) => {
                let checker = Checker::from_parts(vstd::slice::slice_to_vec(data), tables.glyph_names, tables.features, tables.mappings);
                assert forall|g: int| 0 <= g < checker@.glyph_names.len() implies #[trigger] checker@.glyph_names[g] == glyph_name_of(data@, g) by {
                    assert(checker@.glyph_names[g] == checker.glyph_names@[g]@);
                }
                Ok(checker)
            },
            None => Err(string_of("The font could not be read")),
        }
    }

    /// The smallest codepoint that the character map sends to `gid`.
    pub fn codepoint_for(&self, gid: GlyphId) -> (r: Option<u32>)
        requires
            self.wf(),
        ensures
            r matches Some(c) ==> least_codepoint(self.cmap@, gid, c),
            r is None ==> forall|c: u32| self.cmap@.contains_key(c) ==> self.cmap@[c] != gid,
    {
        match self.reversed_cmap.get(&gid) {
            Some(c) => Some(*c),
            None => {
                assert forall|c: u32| self.cmap@.contains_key(c) implies self.cmap@[c] != gid by {
                    assert(self.reversed_cmap@.contains_key(self.cmap@[c]));
                }
                None
            },
        }
    }

    /// The glyph that the character map gives for a codepoint.
    pub fn glyph_for(&self, codepoint: u32) -> (r: Option<GlyphId>)
        ensures
            r == (if self.cmap@.contains_key(codepoint) { Some(self.cmap@[codepoint]) } else { None }),
    {
        match self.cmap.get(&codepoint) {
            Some(g) => Some(*g),
            None => None,
        }
    }

    /// Whether the font's layout tables hold the given feature tag.
    pub fn has_feature(&self, tag: &String) -> (r: bool)
        ensures
            r == crate::text::strings_view(self.features@).contains(tag@),
    {
        crate::text::contains_string(&self.features, tag)
    }
}

/// The results of running the first `n` checks in order, stopping after
/// the first whose status is `StopNow`.
pub open spec fn run_checks(checks: Seq<CheckView>, font: FontView, n: int) -> Seq<CheckResultView>
    decreases n,
{
    if n <= 0 {
        Seq::empty()
    } else {
        let done = run_checks(checks, font, n - 1);
        if done.len() > 0 && done.last().status == ResultCode::StopNow {
            done
        } else {
            done.push(check_result(checks[n - 1], font))
        }
    }
}

/// The results of checking a font against a language's checks.
pub open spec fn language_report(checks: Seq<CheckView>, font: FontView) -> Seq<CheckResultView> {
    run_checks(checks, font, checks.len() as int)
}

impl Checker {
    /// Runs the language's checks in order, stopping after the first whose
    /// status is `StopNow`.
    pub fn check(&self, language: &Language) -> (r: Reporter)
        requires
            self.wf(),
        ensures
            r@ == language_report(language@.checks, self@),
            r.wf(),
    {
        let mut results = Reporter::new();
        let mut i: usize = 0;
        while i < language.checks.len()
            invariant
                i <= language.checks.len(),
                self.wf(),
                results.wf(),
                results@ == run_checks(language@.checks, self@, i as int),
                results@.len() == 0 || results@.last().status != ResultCode::StopNow,
            decreases language.checks.len() - i,
        {
            assert(language@.checks[i as int] == language.checks@[i as int]@);
            let checkresult = language.checks[i].execute(self);
            let status = checkresult.status;
            results.add(checkresult);
            if status == ResultCode::StopNow {
                assert forall|k: int| i < k <= language.checks.len() implies run_checks(language@.checks, self@, k) == results@ by {
                    lemma_run_checks_stopped(language@.checks, self@, i as int + 1, k);
                }
                return results;
            }
            i = i + 1;
        }
        results
    }
}

proof fn lemma_run_checks_stopped(checks: Seq<CheckView>, font: FontView, n: int, k: int)
    requires
        0 < n <= k,
        run_checks(checks, font, n).len() > 0,
        run_checks(checks, font, n).last().status == ResultCode::StopNow,
    ensures
        run_checks(checks, font, k) == run_checks(checks, font, n),
    decreases k - n,
{
    if k > n {
        lemma_run_checks_stopped(checks, font, n, k - 1);
    }
}

proof fn lemma_run_checks_prefix(checks: Seq<CheckView>, font: FontView, n: int)
    requires
        0 <= n <= checks.len(),
    ensures
        run_checks(checks, font, n).len() <= n,
        forall|i: int| 0 <= i < run_checks(checks, font, n).len() ==> #[trigger] run_checks(checks, font, n)[i] == check_result(checks[i], font),
        forall|i: int| 0 <= i < run_checks(checks, font, n).len() - 1 ==> (#[trigger] run_checks(checks, font, n)[i]).status != ResultCode::StopNow,
        run_checks(checks, font, n).len() < n ==> run_checks(checks, font, n).len() > 0
            && run_checks(checks, font, n).last().status == ResultCode::StopNow,
    decreases n,
{
    if n > 0 {
        lemma_run_checks_prefix(checks, font, n - 1);
    }
}

/// The results of checking a font against a language are the results of
/// its checks, in order, up to and including the first `StopNow`: every
/// result but the last is not `StopNow`, and the run ends early only after one.
pub proof fn lemma_report_is_prefix(checks: Seq<CheckView>, font: FontView)
    ensures
        language_report(checks, font).len() <= checks.len(),
        forall|i: int| 0 <= i < language_report(checks, font).len() ==> #[trigger] language_report(checks, font)[i] == check_result(checks[i], font),
        forall|i: int| 0 <= i < language_report(checks, font).len() - 1 ==> (#[trigger] language_report(checks, font)[i]).status != ResultCode::StopNow,
        language_report(checks, font).len() < checks.len() ==> language_report(checks, font).len() > 0
            && language_report(checks, font).last().status == ResultCode::StopNow,
{
    lemma_run_checks_prefix(checks, font, checks.len() as int);
}

/// Checking depends on nothing but the font's contents and the language's
/// checks: two checkers that read the same from their fonts give, for the
/// same checks, the same results with problems and fixes in the same order.
pub proof fn lemma_report_deterministic(a: Checker, b: Checker, checks_a: Seq<CheckView>, checks_b: Seq<CheckView>)
    requires
        a@ == b@,
        checks_a == checks_b,
    ensures
        language_report(checks_a, a@) == language_report(checks_b, b@),
{
}

/// Where no check of a language ran a sub-test, the support level is
/// `Indeterminate`.
pub proof fn lemma_unknown_report_is_indeterminate(checks: Seq<CheckView>, font: FontView)
    requires
        crate::reporter::unknown(language_report(checks, font)),
    ensures
        crate::reporter::support_of(language_report(checks, font)) == crate::reporter::SupportLevel::Indeterminate,
{
    let rs = language_report(checks, font);
    lemma_report_is_prefix(checks, font);
    assert forall|i: int| 0 <= i < rs.len() && rs[i].status == ResultCode::StopNow implies rs[i].total_checks > 0 by {
        crate::checks::lemma_stop_ran_sub_tests(checks[i], font);
    }
    crate::reporter::lemma_unknown_is_indeterminate(rs);
}

proof fn lemma_dedup_within<A>(items: Seq<A>)
    ensures
        forall|j: int| 0 <= j < dedup(items).len() ==> items.contains(#[trigger] dedup(items)[j]),
        items.len() > 0 ==> dedup(items).len() > 0,
    decreases items.len(),
{
    if items.len() > 0 {
        lemma_dedup_within(items.drop_last());
        let rest = dedup(items.drop_last());
        assert forall|j: int| 0 <= j < dedup(items).len() implies items.contains(#[trigger] dedup(items)[j]) by {
            if j < rest.len() {
                assert(dedup(items)[j] == rest[j]);
                assert(items.drop_last().contains(rest[j]));
                let k = choose|k: int| 0 <= k < items.drop_last().len() && items.drop_last()[k] == rest[j];
                assert(items[k] == rest[j]);
            } else {
                assert(dedup(items)[j] == items.last());
                assert(items[items.len() - 1] == items.last());
            }
        }
        if rest.len() == 0 && items.drop_last().len() > 0 {
            assert(false);
        }
        if rest.len() == 0 {
            assert(!rest.contains(items.last()));
        }
    }
}

proof fn lemma_all_missing(strings: Seq<Seq<char>>, runs: Seq<Option<Seq<ShapedGlyph>>>)
    requires
        strings.len() <= runs.len(),
        forall|i: int| 0 <= i < strings.len() ==> !crate::shaping::covered_run(#[trigger] runs[i]),
    ensures
        crate::checks::codepoint_coverage::missing_strings(strings, runs) == strings,
    decreases strings.len(),
{
    if strings.len() > 0 {
        lemma_all_missing(strings.drop_last(), runs);
        assert(strings.drop_last().push(strings.last()) =~= strings);
    }
}

proof fn lemma_first_problems_kept(check: CheckView, font: FontView, n: int)
    requires
        1 <= n,
        check.implementations.len() > 0,
        implementation_skip_is_none_first(check, font),
    ensures
        run_implementations(check, font, 1).0.len() <= run_implementations(check, font, n).0.len(),
        forall|j: int| 0 <= j < run_implementations(check, font, 1).0.len() ==>
            #[trigger] run_implementations(check, font, n).0[j] == run_implementations(check, font, 1).0[j],
        run_implementations(check, font, 1).1 <= run_implementations(check, font, n).1,
    decreases n,
{
    if n > 1 {
        lemma_first_problems_kept(check, font, n - 1);
        crate::checks::lemma_run_bounded(check, font, n - 1);
    }
}

/// The first implementation of the check is not skipped.
pub open spec fn implementation_skip_is_none_first(check: CheckView, font: FontView) -> bool {
    crate::checks::implementation_skip(check.implementations[0], font.features) is None
}

/// The checks derived for a language with bases start with its mandatory
/// orthography check.
pub proof fn lemma_derived_checks_start_mandatory(l: LanguageView, table: Seq<(Seq<char>, Seq<CheckView>)>)
    requires
        l.bases.len() > 0,
    ensures
        base_checks(l, table).len() > 0,
        base_checks(l, table)[0] == mandatory_check(l),
{
}

/// A language with bases whose first check is its mandatory orthography
/// check, checked against a font that covers none of the bases: the first
/// result is `StopNow` with score zero and a terminal `bases-missing`
/// problem first, checking ends there, and the support level is
/// `NotAttempted`.
pub proof fn lemma_uncovered_bases_stop(l: LanguageView, font: FontView)
    requires
        l.checks.len() > 0,
        l.checks[0] == mandatory_check(l),
        l.bases.len() > 0,
        forall|i: int| 0 <= i < l.bases.len() ==> !crate::shaping::covered_run(
            #[trigger] shaped(font.font, crate::checks::codepoint_coverage::plain_input(l.bases[i]))),
    ensures
        language_report(l.checks, font).len() == 1,
        language_report(l.checks, font)[0].status == ResultCode::StopNow,
        language_report(l.checks, font)[0].score == (crate::reporter::Score { numerator: 0, denominator: 1 }),
        language_report(l.checks, font)[0].problems.len() > 0,
        language_report(l.checks, font)[0].problems[0].terminal,
        language_report(l.checks, font)[0].problems[0].code == "bases-missing"@,
        crate::reporter::support_of(language_report(l.checks, font)) == crate::reporter::SupportLevel::NotAttempted,
{
    let check = mandatory_check(l);
    assert(l.checks[0] == check);
    let once = dedup(l.bases);
    let strings = dedup(once);
    lemma_dedup_within(l.bases);
    lemma_dedup_within(once);
    let runs = crate::checks::codepoint_coverage::coverage_runs(font.font, strings);
    assert forall|i: int| 0 <= i < strings.len() implies !crate::shaping::covered_run(#[trigger] runs[i]) by {
        assert(once.contains(strings[i]));
        let j = choose|j: int| 0 <= j < once.len() && once[j] == strings[i];
        assert(l.bases.contains(once[j]));
        let k = choose|k: int| 0 <= k < l.bases.len() && l.bases[k] == strings[i];
        assert(runs[i] == shaped(font.font, crate::checks::codepoint_coverage::plain_input(l.bases[k])));
    }
    lemma_all_missing(strings, runs);
    let cv = crate::checks::codepoint_coverage::CoverageView { strings: once, code: "base"@, terminal_if_empty: true };
    assert(check.implementations[0] == CheckTypeView::Coverage(cv));
    let first = run_implementations(check, font, 1);
    assert(run_implementations(check, font, 0).0 =~= Seq::<crate::reporter::ProblemView>::empty());
    assert(first.0 =~= crate::checks::codepoint_coverage::coverage_problems(cv, runs));
    assert(first.0[0].terminal);
    assert(first.0[0].code == "bases-missing"@) by {
        reveal_strlit("base");
        reveal_strlit("s-missing");
        reveal_strlit("bases-missing");
        assert("base"@ + "s-missing"@ =~= "bases-missing"@);
    }
    let n = check.implementations.len() as int;
    lemma_first_problems_kept(check, font, n);
    let all = run_implementations(check, font, n);
    assert(all.0[0] == first.0[0]);
    assert(crate::checks::any_terminal(all.0));
    assert(check_result(check, font).status == ResultCode::StopNow);
    lemma_report_is_prefix(l.checks, font);
    let rs = language_report(l.checks, font);
    assert(rs.len() > 0) by {
        if rs.len() == 0 {
            assert(run_checks(l.checks, font, 1) =~= seq![check_result(l.checks[0], font)]);
            lemma_run_checks_len_grows(l.checks, font, 1, l.checks.len() as int);
        }
    }
    assert(rs[0] == check_result(l.checks[0], font));
    assert(crate::reporter::any_status(rs, ResultCode::StopNow));
}

proof fn lemma_run_checks_len_grows(checks: Seq<CheckView>, font: FontView, m: int, n: int)
    requires
        0 <= m <= n,
    ensures
        run_checks(checks, font, m).len() <= run_checks(checks, font, n).len(),
    decreases n - m,
{
    if m < n {
        lemma_run_checks_len_grows(checks, font, m, n - 1);
    }
}

impl ShapingInput {
    /// Shapes the input with the checker's font; none where the font, a
    /// feature setting or the language cannot be read.
    pub fn shape(&self, checker: &Checker) -> (r: Option<Vec<ShapedGlyph>>)
        ensures
            r matches Some(g) ==> shaped(checker@.font, self@) == Some(g@),
            r is None ==> shaped(checker@.font, self@) is None,
    {
        match shape_text(&checker.font, self.text.as_str(), &self.features, &self.language) {
            Some(raw) => {
                let mut glyphs: Vec<ShapedGlyph> = Vec::new();
                let mut i: usize = 0;
                while i < raw.len()
                    invariant
                        i <= raw.len(),
                        glyphs@ == glyph_records(raw@).take(i as int),
                    decreases raw.len() - i,
                {
                    let g = raw[i];
                    glyphs.push(ShapedGlyph::new(g.0, g.1, g.2, g.3, g.4, g.5));
                    assert(glyphs@ =~= glyph_records(raw@).take(i as int + 1));
                    i = i + 1;
                }
                assert(glyph_records(raw@).take(i as int) =~= glyph_records(raw@));
                Some(glyphs)
            },
            None => None,
        }
    }
}

} // verus!
