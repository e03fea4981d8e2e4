//! Queries on the bytes of a font file. They are answered by the
//! `ttf_parser` crate, which reads the face with index 0 anew for each of
//! them; none of the answers is proved here. Each answer has a name, a
//! function of the bytes and the query's arguments, so that contracts can
//! speak of it.

use vstd::prelude::*;

verus! {

/// The error of `ttf_parser` when it cannot read a face.
#[verifier::external_type_specification]
#[verifier::external_body]
pub struct ExFaceParsingError(ttf_parser::FaceParsingError);

/// Face-wide metrics, in font design units.
#[derive(Debug, Clone, Copy, PartialEq, Eq, Structural)]
pub struct FaceMetrics {
    pub units_per_em: u16,
    pub ascender: i16,
    pub descender: i16,
    pub line_gap: i16,
}

/// An embedded raster image of a glyph, still encoded.
#[derive(Debug)]
pub struct Strike {
    /// Pixels per em of the strike that the image belongs to.
    pub pixels_per_em: u16,
    /// The encoded image.
    pub data: Vec<u8>,
}

/// The value of a strike: its fields, with the image bytes as a sequence.
pub struct StrikeView {
    pub pixels_per_em: u16,
    pub data: Seq<u8>,
}

impl View for Strike {
    type V = StrikeView;

    open spec fn view(&self) -> StrikeView {
        StrikeView { pixels_per_em: self.pixels_per_em, data: self.data@ }
    }
}

/// The metrics of the face that `data` holds, if `data` holds a face.
pub uninterp spec fn face_metrics_of(data: Seq<u8>) -> Option<FaceMetrics>;

/// The number of glyphs of the face; zero where `data` holds no face.
pub uninterp spec fn glyph_count_of(data: Seq<u8>) -> u16;

/// The glyph that the face maps `character` to.
pub uninterp spec fn glyph_index_of(data: Seq<u8>, character: char) -> Option<u16>;

/// The horizontal advance of a glyph, in font design units.
pub uninterp spec fn hor_advance_of(data: Seq<u8>, glyph_index: u16) -> Option<u16>;

/// The horizontal side bearing of a glyph, in font design units.
pub uninterp spec fn side_bearing_of(data: Seq<u8>, glyph_index: u16) -> Option<i16>;

/// The embedded raster image that the face offers for a glyph at a size.
pub uninterp spec fn raster_image_of(data: Seq<u8>, glyph_index: u16, pixels_per_em: u16) -> Option<
    StrikeView,
>;

/// Whether the face has tables of colour bitmaps (`CBLC` and `CBDT`).
pub uninterp spec fn has_bitmap_table(data: Seq<u8>) -> bool;

/// Whether the face has a table of variation axes (`fvar`) with an axis in it.
pub uninterp spec fn has_variation_table(data: Seq<u8>) -> bool;

/// The number of records in the face's table of names.
pub uninterp spec fn name_count_of(data: Seq<u8>) -> u16;

/// The name ID of the record with the given index in the table of names,
/// if the table holds the record whole.
pub uninterp spec fn name_id_of(data: Seq<u8>, index: u16) -> Option<u16>;

/// The text of the record with the given index in the table of names, if
/// the record is encoded in Unicode.
pub uninterp spec fn name_text_of(data: Seq<u8>, index: u16) -> Option<Seq<char>>;

/// Calls `ttf_parser::Face::parse` and reads the face's `units_per_em`,
/// `ascender`, `descender` and `line_gap`. Trusted: the result is
/// `face_metrics_of(data)`, an error where that is `None`, and the units
/// per em lie between 16 and 16384, as the crate documents.
#[verifier::external_body]
pub(crate) fn parse_face_metrics(data: &[u8]) -> (r: Result<
    FaceMetrics,
    ttf_parser::FaceParsingError,
>)
    ensures
        r.is_ok() == face_metrics_of(data@).is_some(),
        r matches Ok(m) ==> face_metrics_of(data@) == Some(m) && 16 <= m.units_per_em <= 16384,
{
    let face = ttf_parser::Face::parse(data, 0)?;
    Ok(
        FaceMetrics {
            units_per_em: face.units_per_em(),
            ascender: face.ascender(),
            descender: face.descender(),
            line_gap: face.line_gap(),
        },
    )
}

/// Formats a `ttf_parser::FaceParsingError` with its `Debug` impl. Nothing
/// is claimed of the text.
#[verifier::external_body]
pub(crate) fn describe_parse_error(error: &ttf_parser::FaceParsingError) -> (text: String) {
    format!("{:?}", error)
}

/// Calls `ttf_parser::Face::number_of_glyphs`. Trusted: the result is
/// `glyph_count_of(data)`.
#[verifier::external_body]
pub(crate) fn face_glyph_count(data: &[u8]) -> (r: u16)
    ensures
        r == glyph_count_of(data@),
{
    match ttf_parser::Face::parse(data, 0) {
        Ok(face) => face.number_of_glyphs(),
        Err(_) => 0,
    }
}

/// Calls `ttf_parser::Face::glyph_index`. Trusted: the result is
/// `glyph_index_of(data, character)`.
#[verifier::external_body]
pub(crate) fn face_glyph_index(data: &[u8], character: char) -> (r: Option<u16>)
    ensures
        r == glyph_index_of(data@, character),
{
    let face = ttf_parser::Face::parse(data, 0).ok()?;
    face.glyph_index(character).map(|id| id.0)
}

/// Calls `ttf_parser::Face::glyph_hor_advance`. Trusted: the result is
/// `hor_advance_of(data, glyph_index)`.
#[verifier::external_body]
pub(crate) fn face_hor_advance(data: &[u8], glyph_index: u16) -> (r: Option<u16>)
    ensures
        r == hor_advance_of(data@, glyph_index),
{
    let face = ttf_parser::Face::parse(data, 0).ok()?;
    face.glyph_hor_advance(ttf_parser::GlyphId(glyph_index))
}

/// Calls `ttf_parser::Face::glyph_hor_side_bearing`. Trusted: the result is
/// `side_bearing_of(data, glyph_index)`.
#[verifier::external_body]
pub(crate) fn face_side_bearing(data: &[u8], glyph_index: u16) -> (r: Option<i16>)
    ensures
        r == side_bearing_of(data@, glyph_index),
{
    let face = ttf_parser::Face::parse(data, 0).ok()?;
    face.glyph_hor_side_bearing(ttf_parser::GlyphId(glyph_index))
}

/// Calls `ttf_parser::Face::glyph_raster_image` and copies the image's
/// bytes and the pixels per em of its strike. Trusted: the result is
/// `raster_image_of(data, glyph_index, pixels_per_em)`.
#[verifier::external_body]
pub(crate) fn face_raster_image(data: &[u8], glyph_index: u16, pixels_per_em: u16) -> (r: Option<
    Strike,
>)
    ensures
        r.is_some() == raster_image_of(data@, glyph_index, pixels_per_em).is_some(),
        r matches Some(strike) ==> raster_image_of(data@, glyph_index, pixels_per_em) == Some(
            strike@,
        ),
{
    let face = ttf_parser::Face::parse(data, 0).ok()?;
    let image = face.glyph_raster_image(ttf_parser::GlyphId(glyph_index), pixels_per_em)?;
    Some(Strike { pixels_per_em: image.pixels_per_em, data: image.data.to_vec() })
}

/// Calls `len` on `ttf_parser::Face::names`. Trusted: the result is
/// `name_count_of(data)`.
#[verifier::external_body]
pub(crate) fn face_name_count(data: &[u8]) -> (r: u16)
    ensures
        r == name_count_of(data@),
{
    match ttf_parser::Face::parse(data, 0) {
        Ok(face) => face.names().len(),
        Err(_) => 0,
    }
}

/// Calls `get` on `ttf_parser::Face::names` and reads the record's
/// `name_id`. Trusted: the result is `name_id_of(data, index)`.
#[verifier::external_body]
pub(crate) fn face_name_id(data: &[u8], index: u16) -> (r: Option<u16>)
    ensures
        r == name_id_of(data@, index),
{
    let face = ttf_parser::Face::parse(data, 0).ok()?;
    face.names().get(index).map(|name| name.name_id)
}

/// Calls `get` on `ttf_parser::Face::names` and `to_string` on the record.
/// Trusted: the result is `name_text_of(data, index)`.
#[verifier::external_body]
pub(crate) fn face_name_text(data: &[u8], index: u16) -> (r: Option<String>)
    ensures
        r.is_some() == name_text_of(data@, index).is_some(),
        r matches Some(text) ==> name_text_of(data@, index) == Some(text@),
{
    let face = ttf_parser::Face::parse(data, 0).ok()?;
    face.names().get(index).and_then(|name| name.to_string())
}

/// Reads `ttf_parser::Face::tables` for a `cbdt` table. Trusted: the result
/// is `has_bitmap_table(data)`.
#[verifier::external_body]
pub(crate) fn face_has_bitmap_table(data: &[u8]) -> (r: bool)
    ensures
        r == has_bitmap_table(data@),
{
    match ttf_parser::Face::parse(data, 0) {
        Ok(face) => face.tables().cbdt.is_some(),
        Err(_) => false,
    }
}

/// Reads `ttf_parser::Face::tables` for an `fvar` table. Trusted: the result
/// is `has_variation_table(data)`.
#[verifier::external_body]
pub(crate) fn face_has_variation_table(data: &[u8]) -> (r: bool)
    ensures
        r == has_variation_table(data@),
{
    match ttf_parser::Face::parse(data, 0) {
        Ok(face) => face.tables().fvar.is_some(),
        Err(_) => false,
    }
}

} // verus!
