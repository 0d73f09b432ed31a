//! Checks whether a font supports a written language by testing how it
//! behaves when text is shaped, not only which codepoints it covers.
//!
//! A language's exemplar characters are compiled into weighted checks;
//! each check runs one or more implementations against a font, and the
//! results are gathered into a reporter that scores them and derives a
//! support level and a deduplicated list of suggested fixes.
use vstd::prelude::*;

pub mod checker;
pub mod checks;
pub mod exemplars;
pub mod font;
pub mod language;
pub mod providers;
pub mod reporter;
pub mod shaping;
pub mod text;
pub mod unicode;

pub use checker::Checker;
pub use checks::{Check, CheckImplementation, CheckType, ScoringStrategy};
pub use language::{Language, Languages};
pub use providers::Provider;
pub use reporter::{CheckResult, Fix, Problem, ProblemContext, Reporter, ResultCode, Score, SupportLevel};
pub use shaping::{ShapedGlyph, ShapingInput};

verus! {

/// A glyph identifier inside a font.
pub type GlyphId = u32;

} // verus!
