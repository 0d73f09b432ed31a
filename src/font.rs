//! What is read from a font's tables: glyph count, glyph names, layout
//! feature tags and the character map.
use vstd::prelude::*;

use skrifa::raw::tables::post::DEFAULT_GLYPH_NAMES;
use skrifa::raw::TableProvider;
use skrifa::{FontRef, MetadataProvider};

use crate::text::{decimal, decimal_string, dedup, dedup_strings, string_of, strings_view};
use crate::GlyphId;

verus! {

/// The glyph count in the `maxp` table of the font in `font`, where it can be read.
pub uninterp spec fn maxp_glyph_count(font: Seq<u8>) -> Option<u16>;

/// The version of the `post` table as a 16.16 fixed-point number, where
/// there is one.
pub uninterp spec fn post_version_of(font: Seq<u8>) -> Option<u32>;

/// Version 1.0 of the `post` table.
pub const POST_VERSION_1: u32 = 0x0001_0000;

/// Version 2.0 of the `post` table.
pub const POST_VERSION_2: u32 = 0x0002_0000;

/// The glyph name index of a version 2 `post` table, where there is one.
pub uninterp spec fn post_name_index(font: Seq<u8>) -> Option<Seq<u16>>;

/// The name strings of a version 2 `post` table, each where it can be read.
pub uninterp spec fn post_name_strings(font: Seq<u8>) -> Option<Seq<Option<Seq<char>>>>;

/// The standard Macintosh glyph name with the given index.
pub uninterp spec fn standard_glyph_name(index: int) -> Seq<char>;

/// The feature tags of the `GSUB` feature list, in order.
pub uninterp spec fn gsub_feature_tags(font: Seq<u8>) -> Seq<Seq<char>>;

/// The feature tags of the `GPOS` feature list, in order.
pub uninterp spec fn gpos_feature_tags(font: Seq<u8>) -> Seq<Seq<char>>;

/// The `(codepoint, glyph)` pairs of the font's character map.
pub uninterp spec fn charmap_pairs(font: Seq<u8>) -> Seq<(u32, GlyphId)>;

/// The number of standard Macintosh glyph names.
pub const STANDARD_NAMES: usize = 258;

/// Relies on skrifa: `FontRef::from_index(data, 0)` and its `maxp` table's `num_glyphs`.
#[verifier::external_body]
fn read_glyph_count(data: &[u8]) -> (r: Option<u16>)
    ensures
        r == maxp_glyph_count(data@),
{
    Some(FontRef::from_index(data, 0).ok()?.maxp().ok()?.num_glyphs())
}

/// Relies on skrifa: the `post` table's `version`, its four big-endian
/// bytes read as one number.
#[verifier::external_body]
fn read_post_version(data: &[u8]) -> (r: Option<u32>)
    ensures
        r == post_version_of(data@),
{
    Some(u32::from_be_bytes(FontRef::from_index(data, 0).ok()?.post().ok()?.version().to_be_bytes()))
}

/// Relies on skrifa: the `post` table's `glyph_name_index`.
#[verifier::external_body]
fn read_post_name_index(data: &[u8]) -> (r: Option<Vec<u16>>)
    ensures
        match r {
            Some(v) => post_name_index(data@) == Some(v@),
            None => post_name_index(data@) is None,
        },
{
    let post = FontRef::from_index(data, 0).ok()?.post().ok()?;
    Some(post.glyph_name_index()?.iter().map(|i| i.get()).collect())
}

/// Relies on skrifa: the `post` table's `string_data`, each string where it reads.
#[verifier::external_body]
fn read_post_strings(data: &[u8]) -> (r: Option<Vec<Option<String>>>)
    ensures
        match r {
            Some(v) => post_name_strings(data@) == Some(v@.map_values(|s: Option<String>| crate::shaping::option_view(s))),
            None => post_name_strings(data@) is None,
        },
{
    let post = FontRef::from_index(data, 0).ok()?.post().ok()?;
    Some(post.string_data()?.iter().map(|s| s.ok().map(|s| s.as_str().to_string())).collect())
}

/// Relies on read-fonts' `DEFAULT_GLYPH_NAMES`, the 258 standard Macintosh glyph names.
#[verifier::external_body]
fn read_standard_glyph_name(index: usize) -> (r: String)
    requires
        index < STANDARD_NAMES,
    ensures
        r@ == standard_glyph_name(index as int),
{
    DEFAULT_GLYPH_NAMES[index].to_string()
}

/// Relies on skrifa: the tags of the `GSUB` table's feature records; none
/// where the table or its feature list cannot be read.
#[verifier::external_body]
fn read_gsub_feature_tags(data: &[u8]) -> (r: Vec<String>)
    ensures
        strings_view(r@) == gsub_feature_tags(data@),
{
    let list = FontRef::from_index(data, 0).ok().and_then(|f| f.gsub().ok()).and_then(|t| t.feature_list().ok());
    list.map(|l| l.feature_records().iter().map(|f| f.feature_tag().to_string()).collect()).unwrap_or_default()
}

/// Relies on skrifa: the tags of the `GPOS` table's feature records; none
/// where the table or its feature list cannot be read.
#[verifier::external_body]
fn read_gpos_feature_tags(data: &[u8]) -> (r: Vec<String>)
    ensures
        strings_view(r@) == gpos_feature_tags(data@),
{
    let list = FontRef::from_index(data, 0).ok().and_then(|f| f.gpos().ok()).and_then(|t| t.feature_list().ok());
    list.map(|l| l.feature_records().iter().map(|f| f.feature_tag().to_string()).collect()).unwrap_or_default()
}

/// Relies on skrifa's `MetadataProvider::charmap` and `Charmap::mappings`;
/// none where the font cannot be read.
#[verifier::external_body]
fn read_charmap(data: &[u8]) -> (r: Vec<(u32, GlyphId)>)
    ensures
        r@ == charmap_pairs(data@),
{
    let font = FontRef::from_index(data, 0);
    font.map(|f| f.charmap().mappings().map(|(c, g)| (c, g.to_u32())).collect()).unwrap_or_default()
}

/// The `gid<n>` name of a glyph without a name of its own.
pub open spec fn fallback_name(gid: nat) -> Seq<char> {
    "gid"@ + decimal(gid)
}

/// The name that a version 2 `post` table gives a glyph, where it gives one.
pub open spec fn indexed_name(index: Seq<u16>, strings: Seq<Option<Seq<char>>>, gid: int) -> Option<Seq<char>> {
    if gid >= index.len() {
        None
    } else if (index[gid] as int) < STANDARD_NAMES {
        Some(standard_glyph_name(index[gid] as int))
    } else if (index[gid] as int) - STANDARD_NAMES < strings.len() {
        strings[(index[gid] as int) - STANDARD_NAMES]
    } else {
        None
    }
}

/// The name of a glyph: the standard name of a version 1 table; the
/// indexed name of a version 2 table; `gid<n>` otherwise.
pub open spec fn glyph_name_of(font: Seq<u8>, gid: int) -> Seq<char> {
    let fallback = fallback_name(gid as nat);
    match post_version_of(font) {
        Some(v) if v == POST_VERSION_1 => if gid < STANDARD_NAMES { standard_glyph_name(gid) } else { fallback },
        Some(v) if v == POST_VERSION_2 => match (post_name_index(font), post_name_strings(font)) {
            (Some(index), Some(strings)) => match indexed_name(index, strings, gid) {
                Some(name) => name,
                None => fallback,
            },
            _ => fallback,
        },
        _ => fallback,
    }
}

/// The name of every glyph of a font with `count` glyphs, by glyph id.
pub fn glyph_names(data: &[u8], count: u16) -> (r: Vec<String>)
    ensures
        r@.len() == count,
        forall|g: int| 0 <= g < count ==> #[trigger] r@[g]@ == glyph_name_of(data@, g),
{
    let version = read_post_version(data);
    let index = read_post_name_index(data);
    let strings = read_post_strings(data);
    let mut names: Vec<String> = Vec::new();
    let mut gid: u16 = 0;
    while gid < count
        invariant
            gid <= count,
            names@.len() == gid,
            version == post_version_of(data@),
            match index { Some(v) => post_name_index(data@) == Some(v@), None => post_name_index(data@) is None },
            match strings {
                Some(v) => post_name_strings(data@) == Some(v@.map_values(|s: Option<String>| crate::shaping::option_view(s))),
                None => post_name_strings(data@) is None,
            },
            forall|g: int| 0 <= g < gid ==> #[trigger] names@[g]@ == glyph_name_of(data@, g),
        decreases count - gid,
    {
        let mut fallback = string_of("gid");
        let digits = decimal_string(gid as u64);
        fallback.append(digits.as_str());
        let name = match version {
            Some(v) if v == POST_VERSION_1 => if (gid as usize) < STANDARD_NAMES { read_standard_glyph_name(gid as usize) } else { fallback },
            Some(v) if v == POST_VERSION_2 => match (&index, &strings) {
                (Some(index), Some(strings)) => {
                    let g = gid as usize;
                    if g >= index.len() {
                        fallback
                    } else if (index[g] as usize) < STANDARD_NAMES {
                        read_standard_glyph_name(index[g] as usize)
                    } else if (index[g] as usize) - STANDARD_NAMES < strings.len() {
                        match &strings[(index[g] as usize) - STANDARD_NAMES] {
                            Some(s) => s.clone(),
                            None => fallback,
                        }
                    } else {
                        fallback
                    }
                },
                _ => fallback,
            },
            _ => fallback,
        };
        assert(name@ == glyph_name_of(data@, gid as int));
        names.push(name);
        gid = gid + 1;
    }
    names
}

/// The distinct feature tags of the `GSUB` and `GPOS` tables, in order of
/// first appearance.
pub fn feature_tags(data: &[u8]) -> (r: Vec<String>)
    ensures
        strings_view(r@) == dedup(gsub_feature_tags(data@) + gpos_feature_tags(data@)),
{
    let mut tags = read_gsub_feature_tags(data);
    let ghost a = strings_view(tags@);
    let mut gpos = read_gpos_feature_tags(data);
    let ghost b = strings_view(gpos@);
    tags.append(&mut gpos);
    assert(strings_view(tags@) =~= a + b);
    dedup_strings(&tags)
}

/// What a font's tables give, where its glyph count can be read.
pub struct FontTables {
    pub glyph_names: Vec<String>,
    pub features: Vec<String>,
    pub mappings: Vec<(u32, GlyphId)>,
}

/// Reads glyph names, feature tags and character map from a font; none
/// where its glyph count cannot be read.
pub fn read_font_tables(data: &[u8]) -> (r: Option<FontTables>)
    ensures
        r is Some <==> maxp_glyph_count(data@) is Some,
        r matches Some(t) ==> {
            &&& t.glyph_names@.len() == maxp_glyph_count(data@)->0
            &&& forall|g: int| 0 <= g < t.glyph_names@.len() ==> #[trigger] t.glyph_names@[g]@ == glyph_name_of(data@, g)
            &&& strings_view(t.features@) == dedup(gsub_feature_tags(data@) + gpos_feature_tags(data@))
            &&& t.mappings@ == charmap_pairs(data@)
        },
{
    match read_glyph_count(data) {
        Some(count) => Some(FontTables {
            glyph_names: glyph_names(data, count),
            features: feature_tags(data),
            mappings: read_charmap(data),
        }),
        None => None,
    }
}

} // verus!
