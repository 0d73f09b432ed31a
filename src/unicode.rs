//! Unicode properties and normalization, taken from outside crates.
use vstd::prelude::*;

use unicode_joining_type::{get_joining_type, JoiningType};
use unicode_normalization::UnicodeNormalization;
use unicode_properties::UnicodeGeneralCategory;

verus! {

/// The position of a character's General_Category in the declaration of
/// `unicode_properties::GeneralCategory`.
pub uninterp spec fn general_category_of(c: char) -> u8;

/// The position of a character's General_Category group in the declaration
/// of `unicode_properties::GeneralCategoryGroup`.
pub uninterp spec fn category_group_of(c: char) -> u8;

/// The Unicode joining type of a character.
pub uninterp spec fn joining_type_of(c: char) -> JoiningKind;

/// The canonical composition (NFC) of a text.
pub uninterp spec fn nfc_of(s: Seq<char>) -> Seq<char>;

/// The canonical decomposition (NFD) of a text.
pub uninterp spec fn nfd_of(s: Seq<char>) -> Seq<char>;

/// `Ll`, a lowercase letter.
pub const LOWERCASE_LETTER: u8 = 1;

/// `Mn`, a nonspacing combining mark.
pub const NONSPACING_MARK: u8 = 5;

/// The letter group: `Lu`, `Ll`, `Lt`, `Lm` and `Lo`.
pub const LETTER_GROUP: u8 = 0;

/// The mark group: `Mn`, `Mc` and `Me`.
pub const MARK_GROUP: u8 = 1;

/// How a letter joins its neighbours in cursive scripts.
#[derive(Debug, Clone, Copy, PartialEq, Eq, Structural)]
pub enum JoiningKind {
    DualJoining,
    JoinCausing,
    LeftJoining,
    NonJoining,
    RightJoining,
    Transparent,
}

/// Relies on `UnicodeGeneralCategory::general_category` of unicode-properties,
/// read as the position of the variant in its enum.
#[verifier::external_body]
pub fn general_category(c: char) -> (r: u8)
    ensures
        r == general_category_of(c),
{
    c.general_category() as u8
}

/// Relies on `UnicodeGeneralCategory::general_category_group` of
/// unicode-properties, read as the position of the variant in its enum.
#[verifier::external_body]
pub fn category_group(c: char) -> (r: u8)
    ensures
        r == category_group_of(c),
{
    c.general_category_group() as u8
}

/// Relies on `unicode_joining_type::get_joining_type`.
#[verifier::external_body]
pub fn joining_type(c: char) -> (r: JoiningKind)
    ensures
        r == joining_type_of(c),
{
    match get_joining_type(c) {
        JoiningType::DualJoining => JoiningKind::DualJoining,
        JoiningType::JoinCausing => JoiningKind::JoinCausing,
        JoiningType::LeftJoining => JoiningKind::LeftJoining,
        JoiningType::RightJoining => JoiningKind::RightJoining,
        JoiningType::Transparent => JoiningKind::Transparent,
        JoiningType::NonJoining | _ => JoiningKind::NonJoining,
    }
}

/// Relies on `UnicodeNormalization::nfc` of unicode-normalization.
#[verifier::external_body]
pub fn nfc(s: &str) -> (r: String)
    ensures
        r@ == nfc_of(s@),
        s@.len() == 0 ==> r@.len() == 0,
{
    s.nfc().collect()
}

/// Relies on `UnicodeNormalization::nfd` of unicode-normalization.
#[verifier::external_body]
pub fn nfd(s: &str) -> (r: String)
    ensures
        r@ == nfd_of(s@),
        s@.len() == 0 ==> r@.len() == 0,
{
    s.nfd().collect()
}

/// Relies on `char::from_u32`: a codepoint is a character unless it is a
/// surrogate or above U+10FFFF.
#[verifier::external_body]
pub fn char_from_u32(cp: u32) -> (r: Option<char>)
    ensures
        r is Some <==> (cp < 0xD800 || (0xE000 <= cp && cp <= 0x10FFFF)),
        r matches Some(ch) ==> ch as u32 == cp,
{
    char::from_u32(cp)
}

} // verus!
