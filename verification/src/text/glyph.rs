//! Rasterized glyphs and their cache.

use crate::color::{mul_div_255, scale_channel, Color};
use crate::fixed::Fixed;
use vstd::prelude::*;

verus! {

/// What the bytes of a rasterized glyph mean.
#[derive(Debug, Clone, Copy, PartialEq, Eq, Structural)]
pub enum GlyphFormat {
    /// Grayscale coverage mask, one byte per pixel (standard text).
    Alpha,
    /// Colour bitmap, four bytes per pixel in the order red, green, blue,
    /// alpha, not premultiplied (coloured emojis).
    Rgba,
}

/// A rasterized glyph with pixel data, rows from top to bottom.
#[derive(Debug)]
pub struct RasterizedGlyph {
    /// Pixel data, as `format` says.
    pub pixels: Vec<u8>,
    /// Format of the pixel data.
    pub format: GlyphFormat,
    /// Glyph width in pixels.
    pub width: usize,
    /// Glyph height in pixels.
    pub height: usize,
    /// Horizontal bearing: from the glyph's origin to the left edge of the bitmap.
    pub bearing_x: Fixed,
    /// Vertical bearing: from the baseline up to the bottom edge of the bitmap.
    pub bearing_y: Fixed,
    /// Horizontal advance to the next glyph.
    pub advance: Fixed,
}

/// The value of a rasterized glyph: its fields, with the pixel bytes as a sequence.
pub struct GlyphBitmap {
    pub pixels: Seq<u8>,
    pub format: GlyphFormat,
    pub width: usize,
    pub height: usize,
    pub bearing_x: Fixed,
    pub bearing_y: Fixed,
    pub advance: Fixed,
}

impl GlyphBitmap {
    /// Bytes that one pixel takes.
    pub open spec fn bytes_per_pixel(self) -> int {
        match self.format {
            GlyphFormat::Alpha => 1,
            GlyphFormat::Rgba => 4,
        }
    }

    /// The glyph without pixels: an empty coverage mask without bearings and
    /// advance. It stands for whatever cannot be drawn.
    pub open spec fn empty() -> GlyphBitmap {
        GlyphBitmap {
            pixels: Seq::empty(),
            format: GlyphFormat::Alpha,
            width: 0,
            height: 0,
            bearing_x: Fixed { raw: 0 },
            bearing_y: Fixed { raw: 0 },
            advance: Fixed { raw: 0 },
        }
    }

    /// The pixel data matches size and format: it holds one byte for each
    /// pixel of a coverage mask, four for each pixel of a colour bitmap.
    pub open spec fn well_formed(self) -> bool {
        self.pixels.len() == self.width * self.height * self.bytes_per_pixel()
    }

    /// The glyph itself where its pixel data matches size and format, else
    /// the glyph without pixels.
    pub open spec fn normalized(self) -> GlyphBitmap {
        if self.well_formed() {
            self
        } else {
            GlyphBitmap::empty()
        }
    }

    /// The glyph has pixels to draw: neither dimension is zero, and the pixel
    /// data covers the whole bitmap.
    pub open spec fn drawable(self) -> bool {
        &&& self.width > 0
        &&& self.height > 0
        &&& self.width * self.height * self.bytes_per_pixel() <= self.pixels.len()
    }

    /// The bitmap of a grayscale mask painted in `color`: four bytes per
    /// pixel, the colour's channels and then the coverage modulated by the
    /// colour's alpha.
    pub open spec fn painted(self, color: Color) -> Seq<u8> {
        Seq::new(
            4 * self.pixels.len(),
            |j: int|
                if j % 4 == 0 {
                    color.r
                } else if j % 4 == 1 {
                    color.g
                } else if j % 4 == 2 {
                    color.b
                } else {
                    scale_channel(self.pixels[j / 4], color.a)
                },
        )
    }
}

impl View for RasterizedGlyph {
    type V = GlyphBitmap;

    open spec fn view(&self) -> GlyphBitmap {
        GlyphBitmap {
            pixels: self.pixels@,
            format: self.format,
            width: self.width,
            height: self.height,
            bearing_x: self.bearing_x,
            bearing_y: self.bearing_y,
            advance: self.advance,
        }
    }
}

impl Clone for RasterizedGlyph {
    fn clone(&self) -> (r: RasterizedGlyph)
        ensures
            r@ == self@,
    {
        RasterizedGlyph {
            pixels: self.pixels.clone(),
            format: self.format,
            width: self.width,
            height: self.height,
            bearing_x: self.bearing_x,
            bearing_y: self.bearing_y,
            advance: self.advance,
        }
    }
}

impl RasterizedGlyph {
    /// The glyph without pixels, which stands for whatever cannot be drawn.
    pub fn empty() -> (r: RasterizedGlyph)
        ensures
            r@ == GlyphBitmap::empty(),
            r@.pixels.len() == 0,
            r.format == GlyphFormat::Alpha,
            r.width == 0 && r.height == 0,
            r.bearing_x.raw == 0 && r.bearing_y.raw == 0 && r.advance.raw == 0,
            r@.well_formed(),
            !r@.drawable(),
    {
        let r = RasterizedGlyph {
            pixels: Vec::new(),
            format: GlyphFormat::Alpha,
            width: 0,
            height: 0,
            bearing_x: Fixed::zero(),
            bearing_y: Fixed::zero(),
            advance: Fixed::zero(),
        };
        assert(r@.pixels =~= Seq::<u8>::empty());
        r
    }

    /// Whether the pixel data matches size and format.
    pub fn is_well_formed(&self) -> (r: bool)
        ensures
            r == self@.well_formed(),
    {
        let bpp: usize = match self.format {
            GlyphFormat::Alpha => 1,
            GlyphFormat::Rgba => 4,
        };
        let len = self.pixels.len();
        let ghost area_int = self.width as int * self.height as int;
        assert(self.width * self.height * self@.bytes_per_pixel() == area_int * bpp as int);
        assert(area_int * bpp as int >= area_int) by (nonlinear_arith)
            requires
                area_int >= 0,
                bpp as int >= 1,
        ;
        match self.width.checked_mul(self.height) {
            None => false,
            Some(area) => match area.checked_mul(bpp) {
                None => false,
                Some(bytes) => bytes == len,
            },
        }
    }

    /// The glyph itself where its pixel data matches size and format, else
    /// the glyph without pixels: a glyph that is out of shape degrades to
    /// one that is skipped.
    pub fn normalized(self) -> (r: RasterizedGlyph)
        ensures
            r@ == self@.normalized(),
            r@.well_formed(),
    {
        if self.is_well_formed() {
            self
        } else {
            RasterizedGlyph::empty()
        }
    }

    /// Whether the glyph has pixels to draw.
    pub fn is_drawable(&self) -> (r: bool)
        ensures
            r == self@.drawable(),
    {
        if self.width == 0 || self.height == 0 {
            return false;
        }
        let bpp: usize = match self.format {
            GlyphFormat::Alpha => 1,
            GlyphFormat::Rgba => 4,
        };
        let len = self.pixels.len();
        let ghost area_int = self.width as int * self.height as int;
        assert(self.width * self.height * self@.bytes_per_pixel() == area_int * bpp as int);
        assert(area_int * bpp as int >= area_int) by (nonlinear_arith)
            requires
                area_int >= 0,
                bpp as int >= 1,
        ;
        match self.width.checked_mul(self.height) {
            None => false,
            Some(area) => match area.checked_mul(bpp) {
                None => false,
                Some(bytes) => bytes <= len,
            },
        }
    }

    /// Creates coloured RGBA pixels from a grayscale mask.
    pub fn to_rgba(&self, color: Color) -> (rgba: Vec<u8>)
        requires
            4 * self.pixels.len() <= usize::MAX,
        ensures
            rgba@ == self@.painted(color),
    {
        let mut rgba: Vec<u8> = Vec::with_capacity(self.pixels.len() * 4);
        let mut i: usize = 0;
        while i < self.pixels.len()
            invariant
                i <= self.pixels.len(),
                rgba@.len() == 4 * i,
                forall|j: int| 0 <= j < 4 * i ==> rgba@[j] == self@.painted(color)[j],
            decreases self.pixels.len() - i,
        {
            let alpha = self.pixels[i];
            rgba.push(color.r);
            rgba.push(color.g);
            rgba.push(color.b);
            rgba.push(mul_div_255(alpha, color.a));
            i += 1;
        }
        assert(rgba@ =~= self@.painted(color));
        rgba
    }
}

} // verus!
