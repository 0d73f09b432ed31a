//! What is handed to the shaper, and what it hands back.
use vstd::prelude::*;

use crate::text::{clone_strings, join, join_strings, string_of, strings_view};

verus! {

/// One text to shape, with the features to switch and the language to use.
///
/// A feature is an OpenType tag such as `smcp`, enabled over the whole
/// run; with a leading `-` it is disabled instead.
#[derive(Debug, Clone)]
pub struct ShapingInput {
    /// The text to shape.
    pub text: String,
    /// The OpenType feature settings to apply.
    pub features: Vec<String>,
    /// The BCP 47 language to shape the text in.
    pub language: Option<String>,
}

/// The contents of a [`ShapingInput`].
pub struct InputView {
    pub text: Seq<char>,
    pub features: Seq<Seq<char>>,
    pub language: Option<Seq<char>>,
}

/// The contents of an optional string.
pub open spec fn option_view(o: Option<String>) -> Option<Seq<char>> {
    match o {
        Some(s) => Some(s@),
        None => None,
    }
}

impl View for ShapingInput {
    type V = InputView;

    open spec fn view(&self) -> InputView {
        InputView {
            text: self.text@,
            features: strings_view(self.features@),
            language: option_view(self.language),
        }
    }
}

/// The contents of each input of a sequence.
pub open spec fn inputs_view(v: Seq<ShapingInput>) -> Seq<InputView> {
    v.map_values(|i: ShapingInput| i@)
}

/// The sentence that names an input in messages.
pub open spec fn describe_input(i: InputView) -> Seq<char> {
    let base = "shaping the text '"@ + i.text + "'"@;
    let with_language = match i.language {
        Some(l) => base + " in language '"@ + l + "'"@,
        None => base,
    };
    if i.features.len() > 0 {
        with_language + " with features: "@ + join(i.features, ", "@)
    } else {
        with_language
    }
}

/// One glyph out of the shaper: its id, the index of the text it came
/// from, and its placement in font units.
#[derive(Debug, Clone, Copy, PartialEq, Eq, Structural)]
pub struct ShapedGlyph {
    pub glyph_id: u32,
    pub cluster: u32,
    pub x_offset: i32,
    pub y_offset: i32,
    pub x_advance: i32,
    pub y_advance: i32,
}

impl ShapedGlyph {
    /// A glyph with the given id, cluster, offsets and advances.
    pub fn new(glyph_id: u32, cluster: u32, x_offset: i32, y_offset: i32, x_advance: i32, y_advance: i32) -> (r: Self)
        ensures
            r == (ShapedGlyph { glyph_id, cluster, x_offset, y_offset, x_advance, y_advance }),
    {
        ShapedGlyph { glyph_id, cluster, x_offset, y_offset, x_advance, y_advance }
    }
}

/// The glyphs of a shaping run, where it succeeded.
pub open spec fn run_view(r: Option<Vec<ShapedGlyph>>) -> Option<Seq<ShapedGlyph>> {
    match r {
        Some(g) => Some(g@),
        None => None,
    }
}

/// The glyphs of each shaping run, where the run succeeded.
pub open spec fn runs_view(v: Seq<Option<Vec<ShapedGlyph>>>) -> Seq<Option<Seq<ShapedGlyph>>> {
    v.map_values(|r: Option<Vec<ShapedGlyph>>| run_view(r))
}

/// Whether a run holds a glyph with id 0 (`.notdef`).
pub open spec fn has_notdef(run: Option<Seq<ShapedGlyph>>) -> bool {
    match run {
        Some(g) => exists|i: int| 0 <= i < g.len() && g[i].glyph_id == 0,
        None => false,
    }
}

/// Whether a run succeeded without a glyph with id 0 (`.notdef`).
pub open spec fn covered_run(run: Option<Seq<ShapedGlyph>>) -> bool {
    match run {
        Some(g) => forall|i: int| 0 <= i < g.len() ==> g[i].glyph_id != 0,
        None => false,
    }
}

/// Whether a run holds a glyph with id 0 (`.notdef`).
pub fn run_has_notdef(run: &Option<Vec<ShapedGlyph>>) -> (r: bool)
    ensures
        r == has_notdef(run_view(*run)),
{
    match run {
        Some(glyphs) => {
            let mut i: usize = 0;
            while i < glyphs.len()
                invariant
                    i <= glyphs.len(),
                    run_view(*run) == Some(glyphs@),
                    forall|j: int| 0 <= j < i ==> glyphs@[j].glyph_id != 0,
                decreases glyphs.len() - i,
            {
                if glyphs[i].glyph_id == 0 {
                    let ghost v = run_view(*run);
                    assert(v == Some(glyphs@));
                    assert(v->0[i as int].glyph_id == 0);
                    return true;
                }
                i = i + 1;
            }
            false
        },
        None => false,
    }
}

impl ShapingInput {
    /// An input with the given text, no features and no language.
    pub fn new_simple(text: String) -> (r: Self)
        ensures
            r@ == (InputView { text: text@, features: Seq::empty(), language: None }),
    {
        let r = ShapingInput { text, features: Vec::new(), language: None };
        assert(r@.features =~= Seq::<Seq<char>>::empty());
        r
    }

    /// An input with the given text and a single feature setting.
    pub fn new_with_feature(text: String, feature: &str) -> (r: Self)
        ensures
            r@ == (InputView { text: text@, features: seq![feature@], language: None }),
    {
        let mut features: Vec<String> = Vec::new();
        features.push(string_of(feature));
        let r = ShapingInput { text, features, language: None };
        assert(r@.features =~= seq![feature@]);
        r
    }

    /// A copy of this input.
    pub fn duplicate(&self) -> (r: Self)
        ensures
            r@ == self@,
    {
        let language = match &self.language {
            Some(l) => Some(l.clone()),
            None => None,
        };
        ShapingInput { text: self.text.clone(), features: clone_strings(&self.features), language }
    }

    /// Describes the input in words, for messages.
    pub fn describe(&self) -> (r: String)
        ensures
            r@ == describe_input(self@),
    {
        let mut description = string_of("shaping the text '");
        description.append(self.text.as_str());
        description.append("'");
        match &self.language {
            Some(language) => {
                description.append(" in language '");
                description.append(language.as_str());
                description.append("'");
            },
            None => {},
        }
        if self.features.len() > 0 {
            description.append(" with features: ");
            let joined = join_strings(&self.features, ", ");
            description.append(joined.as_str());
        }
        description
    }

    /// The character at the given position of the text, counted in characters.
    pub fn char_at(&self, pos: usize) -> (r: Option<char>)
        ensures
            r == (if pos < self.text@.len() { Some(self.text@[pos as int]) } else { None }),
    {
        if pos < self.text.as_str().unicode_len() {
            Some(self.text.as_str().get_char(pos))
        } else {
            None
        }
    }
}

} // verus!
