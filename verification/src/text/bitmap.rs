//! Bitmap font support: embedded bitmap glyphs in `CBDT` tables.

use crate::text::face::{face_has_bitmap_table, has_bitmap_table};
use crate::text::font::Font;
use vstd::prelude::*;

verus! {

/// Bitmap glyph data.
#[derive(Debug)]
pub struct BitmapGlyph {
    /// Pixel data (RGBA format).
    pub pixels: Vec<u8>,
    /// Width in pixels.
    pub width: u32,
    /// Height in pixels.
    pub height: u32,
    /// Horizontal bearing (offset from origin).
    pub bearing_x: i16,
    /// Vertical bearing (offset from baseline).
    pub bearing_y: i16,
    /// Horizontal advance.
    pub advance: u16,
    /// Pixels per em for this strike.
    pub ppem: u16,
}

impl Clone for BitmapGlyph {
    fn clone(&self) -> (copy: BitmapGlyph)
        ensures
            copy.pixels@ == self.pixels@,
            copy.width == self.width,
            copy.height == self.height,
            copy.bearing_x == self.bearing_x,
            copy.bearing_y == self.bearing_y,
            copy.advance == self.advance,
            copy.ppem == self.ppem,
    {
        BitmapGlyph {
            pixels: self.pixels.clone(),
            width: self.width,
            height: self.height,
            bearing_x: self.bearing_x,
            bearing_y: self.bearing_y,
            advance: self.advance,
            ppem: self.ppem,
        }
    }
}

/// Bitmap font renderer for `CBDT` tables.
pub struct BitmapFontRenderer;

impl BitmapFontRenderer {
    /// Whether the font has a table of colour bitmaps.
    pub fn has_bitmaps(font: &Font) -> (b: bool)
        ensures
            b == has_bitmap_table(font@),
    {
        face_has_bitmap_table(font.data())
    }

    /// The strike sizes that the font offers. The strike tables are not
    /// walked yet: the list is empty.
    pub fn available_sizes(_font: &Font) -> (sizes: Vec<u16>)
        ensures
            sizes@.len() == 0,
    {
        Vec::new()
    }

    /// The bitmap of a glyph in the strike of a size. Strikes are not read
    /// here yet: there is none.
    pub fn get_bitmap(_font: &Font, _glyph_id: u16, _ppem: u16) -> (r: Option<BitmapGlyph>)
        ensures
            r.is_none(),
    {
        None
    }
}

} // verus!
