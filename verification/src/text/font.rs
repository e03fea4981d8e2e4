//! Font loading and face-wide metrics.
//!
//! Supports TrueType (.ttf) and OpenType (.otf) font formats.

use crate::fixed::Fixed;
use crate::text::face::{
    describe_parse_error, face_glyph_index, face_hor_advance, face_metrics_of, face_name_count,
    face_name_id, face_name_text, glyph_index_of, hor_advance_of, name_count_of, name_id_of,
    name_text_of, parse_face_metrics, FaceMetrics,
};
use vstd::prelude::*;

verus! {

/// The error of reading or writing a file.
#[verifier::external_type_specification]
#[verifier::external_body]
pub struct ExIoError(std::io::Error);

/// Font loading errors.
#[derive(Debug)]
pub enum FontError {
    /// The bytes are no font that can be parsed.
    ParseError(String),
    /// The font file could not be read.
    IoError(std::io::Error),
    /// The font has no glyph for a character.
    GlyphNotFound(char),
    /// The font collection has no face of this index.
    InvalidIndex(u32),
}

/// A loaded font supporting TrueType and OpenType formats.
///
/// Its value is the bytes of the font file: every query is a function of
/// them.
pub struct Font {
    /// Font data.
    data: Vec<u8>,
    /// Face-wide metrics, read once.
    metrics: FaceMetrics,
}

impl View for Font {
    type V = Seq<u8>;

    closed spec fn view(&self) -> Seq<u8> {
        self.data@
    }
}

/// The line height of a face at a font size: ascent plus descent plus line
/// gap, converted from font design units.
pub open spec fn line_height_of(metrics: FaceMetrics, font_size: Fixed) -> Fixed {
    let descent = if metrics.descender < 0 {
        -(metrics.descender as int)
    } else {
        metrics.descender as int
    };
    Fixed::scaled(
        metrics.ascender + descent + metrics.line_gap,
        font_size,
        metrics.units_per_em as int,
    )
}

/// The name ID of a font's family name.
pub const FAMILY_NAME_ID: u16 = 1;

/// The index of the first record with the name ID `name_id` among the
/// records from `from` on in the table of names. The search ends at a
/// record that the table does not hold whole.
pub open spec fn name_record(data: Seq<u8>, name_id: u16, from: int) -> Option<u16>
    decreases name_count_of(data) - from,
{
    if from < 0 || from >= name_count_of(data) {
        None
    } else {
        match name_id_of(data, from as u16) {
            None => None,
            Some(id) => if id == name_id {
                Some(from as u16)
            } else {
                name_record(data, name_id, from + 1)
            },
        }
    }
}

/// The name with the ID `name_id` of the font that `data` holds: the text
/// of the first record with that ID, if that record is encoded in Unicode.
pub open spec fn name_of(data: Seq<u8>, name_id: u16) -> Option<Seq<char>> {
    match name_record(data, name_id, 0) {
        Some(index) => name_text_of(data, index),
        None => None,
    }
}

/// The family name of the font that `data` holds.
pub open spec fn family_name_of(data: Seq<u8>) -> Option<Seq<char>> {
    name_of(data, FAMILY_NAME_ID)
}

impl Clone for Font {
    fn clone(&self) -> (font: Font)
        ensures
            font@ == self@,
            font.metrics() == self.metrics(),
    {
        proof {
            use_type_invariant(self);
        }
        Font { data: self.data.clone(), metrics: self.metrics }
    }
}

impl Font {
    #[verifier::type_invariant]
    spec fn inv(self) -> bool {
        &&& face_metrics_of(self.data@) == Some(self.metrics)
        &&& 16 <= self.metrics.units_per_em <= 16384
    }

    /// The face-wide metrics of the font.
    pub closed spec fn metrics(&self) -> FaceMetrics {
        self.metrics
    }

    /// Loads a font from bytes.
    ///
    /// It succeeds where the bytes hold a face that the face parser
    /// accepts; every failure is a `ParseError`.
    pub fn from_bytes(data: Vec<u8>) -> (r: Result<Font, FontError>)
        ensures
            r.is_ok() == face_metrics_of(data@).is_some(),
            r matches Ok(font) ==> font@ == data@ && face_metrics_of(data@) == Some(font.metrics())
                && 16 <= font.metrics().units_per_em <= 16384,
            r matches Err(e) ==> e is ParseError,
    {
        let metrics = match parse_face_metrics(data.as_slice()) {
            Ok(metrics) => metrics,
            Err(e) => {
                return Err(FontError::ParseError(describe_parse_error(&e)));
            },
        };
        Ok(Font { data, metrics })
    }

    /// The name of the font with the ID `name_id`: the text of the first
    /// record with that ID in the font's table of names.
    pub fn name(&self, name_id: u16) -> (name: Option<String>)
        ensures
            name.is_some() == name_of(self@, name_id).is_some(),
            name matches Some(text) ==> name_of(self@, name_id) == Some(text@),
    {
        let data = self.data.as_slice();
        let count = face_name_count(data);
        let mut i: u16 = 0;
        while i < count
            invariant
                i <= count,
                count == name_count_of(data@),
                data@ == self@,
                name_record(data@, name_id, 0) == name_record(data@, name_id, i as int),
            decreases count - i,
        {
            match face_name_id(data, i) {
                None => {
                    return None;
                },
                Some(id) => {
                    if id == name_id {
                        return face_name_text(data, i);
                    }
                },
            }
            i += 1;
        }
        None
    }

    /// The font family name.
    pub fn family_name(&self) -> (name: Option<String>)
        ensures
            name.is_some() == family_name_of(self@).is_some(),
            name matches Some(text) ==> family_name_of(self@) == Some(text@),
    {
        self.name(FAMILY_NAME_ID)
    }

    /// The font's units per em, between 16 and 16384.
    pub fn units_per_em(&self) -> (r: u16)
        ensures
            r == self.metrics().units_per_em,
            face_metrics_of(self@) == Some(self.metrics()),
            16 <= r <= 16384,
    {
        proof {
            use_type_invariant(self);
        }
        self.metrics.units_per_em
    }

    /// The ascender (height above baseline), in font design units.
    pub fn ascender(&self) -> (r: i16)
        ensures
            r == self.metrics().ascender,
    {
        self.metrics.ascender
    }

    /// The descender (depth below baseline), in font design units.
    pub fn descender(&self) -> (r: i16)
        ensures
            r == self.metrics().descender,
    {
        self.metrics.descender
    }

    /// The line gap, in font design units.
    pub fn line_gap(&self) -> (r: i16)
        ensures
            r == self.metrics().line_gap,
    {
        self.metrics.line_gap
    }

    /// Calculates the line height at a font size.
    pub fn line_height(&self, font_size: Fixed) -> (r: Fixed)
        ensures
            r == line_height_of(self.metrics(), font_size),
    {
        let ascent: i32 = self.metrics.ascender as i32;
        let descent: i32 = if self.metrics.descender < 0 {
            -(self.metrics.descender as i32)
        } else {
            self.metrics.descender as i32
        };
        let line_gap: i32 = self.metrics.line_gap as i32;
        Fixed::scale(ascent + descent + line_gap, font_size, self.metrics.units_per_em)
    }

    /// The glyph index for a character, if the font maps the character.
    pub fn glyph_index(&self, character: char) -> (r: Option<u16>)
        ensures
            r == glyph_index_of(self@, character),
    {
        face_glyph_index(self.data.as_slice(), character)
    }

    /// The horizontal advance of a glyph at a font size; zero for a glyph
    /// without an advance.
    pub fn glyph_advance(&self, glyph_id: u16, font_size: Fixed) -> (r: Fixed)
        ensures
            r == (match hor_advance_of(self@, glyph_id) {
                Some(advance) => Fixed::scaled(
                    advance as int,
                    font_size,
                    self.metrics().units_per_em as int,
                ),
                None => Fixed { raw: 0 },
            }),
    {
        match face_hor_advance(self.data.as_slice(), glyph_id) {
            Some(advance) => Fixed::scale(advance as i32, font_size, self.metrics.units_per_em),
            None => Fixed::zero(),
        }
    }

    /// The bytes of the font file.
    pub fn data(&self) -> (r: &[u8])
        ensures
            r@ == self@,
    {
        self.data.as_slice()
    }
}

} // verus!
