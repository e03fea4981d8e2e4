//! The rasterizer adapter: turns a glyph of a font at a size into a bitmap.
//!
//! A colour bitmap embedded in the font is preferred: its strike is looked
//! up, decoded and resampled to the font size. Otherwise the glyph's outline
//! is rasterized, by a rasterizer that the caller hands in as a function
//! from glyph index and font size to a coverage mask.

use crate::fixed::{div_round, lemma_div_round, Fixed};
use crate::text::face::{
    face_glyph_count, face_hor_advance, face_raster_image, face_side_bearing, glyph_count_of,
    hor_advance_of, raster_image_of, side_bearing_of, FaceMetrics, Strike, StrikeView,
};
use crate::text::font::Font;
use crate::text::glyph::{GlyphBitmap, GlyphFormat, RasterizedGlyph};
use vstd::prelude::*;

verus! {

/// A decoded image of the `image` crate.
#[verifier::external_type_specification]
#[verifier::external_body]
pub struct ExDynamicImage(image::DynamicImage);

/// A decoded image together with its dimensions.
pub struct DecodedImage {
    image: image::DynamicImage,
    width: u32,
    height: u32,
}

/// Pixels of a colour image: four bytes each, in the order red, green,
/// blue, alpha, rows from top to bottom.
pub struct ColorBitmap {
    pub pixels: Vec<u8>,
    pub width: u32,
    pub height: u32,
}

/// What an outline rasterizer returns for a glyph: a coverage mask, rows
/// from top to bottom, and where it lies relative to the glyph's origin.
pub struct OutlineBitmap {
    /// One coverage byte per pixel.
    pub pixels: Vec<u8>,
    /// Width of the mask in pixels.
    pub width: usize,
    /// Height of the mask in pixels.
    pub height: usize,
    /// Whole-pixel offset of the left edge of the mask from the origin.
    pub xmin: i32,
    /// Whole-pixel offset of the bottom edge of the mask from the baseline.
    pub ymin: i32,
    /// Advance width of the glyph.
    pub advance_width: Fixed,
}

/// The width and height of the image that `data` encodes, if it can be decoded.
pub uninterp spec fn image_dimensions_of(data: Seq<u8>) -> Option<(u32, u32)>;

/// Calls `image::load_from_memory` and reads the image's `dimensions`.
/// Trusted: it succeeds where `image_dimensions_of(data)` is some pair,
/// which is then the pair of the image's width and height.
#[verifier::external_body]
fn decode_image(data: &[u8]) -> (r: Option<DecodedImage>)
    ensures
        r.is_some() == image_dimensions_of(data@).is_some(),
        r matches Some(decoded) ==> image_dimensions_of(data@) == Some(
            (decoded.width, decoded.height),
        ),
{
    let image = image::load_from_memory(data).ok()?;
    let (width, height) = image::GenericImageView::dimensions(&image);
    Some(DecodedImage { image, width, height })
}

/// Whether the machine can hold what resampling an image `source_width`
/// pixels wide to `width` by `height` pixels takes: the resampler works on
/// sixteen bytes for each pixel, first of the image scaled in height only
/// and then of the result, and no allocation exceeds `isize::MAX` bytes.
pub open spec fn resample_fits(source_width: int, width: int, height: int) -> bool {
    &&& 16 * source_width * height <= isize::MAX
    &&& 16 * width * height <= isize::MAX
}

/// Calls `image::DynamicImage::resize_exact` with the Lanczos filter and
/// converts the result with `to_rgba8`. Trusted: the result has the width
/// and height asked for, as the crate documents, and the pixel data holds
/// four bytes for each of its pixels. Nothing is claimed of the bytes: the
/// filter's weights come from the sine function, whose last digits the
/// standard library leaves to the platform.
#[verifier::external_body]
fn resample_image(source: &DecodedImage, width: u32, height: u32) -> (r: ColorBitmap)
    requires
        1 <= source.width,
        1 <= source.height,
        1 <= width,
        1 <= height,
        resample_fits(source.width as int, width as int, height as int),
    ensures
        r.width == width,
        r.height == height,
        r.pixels@.len() == 4 * r.width * r.height,
{
    let resized = source.image.resize_exact(width, height, image::imageops::FilterType::Lanczos3);
    let (w, h) = image::GenericImageView::dimensions(&resized);
    ColorBitmap { pixels: resized.to_rgba8().into_vec(), width: w, height: h }
}

/// The whole pixels of a font size, which is the strike size asked for
/// first; zero for a size that is not positive.
pub open spec fn whole_pixels(font_size: Fixed) -> u16 {
    if font_size.raw <= 0 {
        0
    } else {
        (font_size.raw as int / 65536) as u16
    }
}

/// The strike that serves a glyph at a font size: the one that the font
/// offers for the whole pixels of the size, else the first that it offers
/// for one of the common strike sizes 109, 128, 96, 64 and 32.
pub open spec fn strike_for(data: Seq<u8>, glyph_index: u16, font_size: Fixed) -> Option<
    StrikeView,
> {
    if raster_image_of(data, glyph_index, whole_pixels(font_size)).is_some() {
        raster_image_of(data, glyph_index, whole_pixels(font_size))
    } else if raster_image_of(data, glyph_index, 109).is_some() {
        raster_image_of(data, glyph_index, 109)
    } else if raster_image_of(data, glyph_index, 128).is_some() {
        raster_image_of(data, glyph_index, 128)
    } else if raster_image_of(data, glyph_index, 96).is_some() {
        raster_image_of(data, glyph_index, 96)
    } else if raster_image_of(data, glyph_index, 64).is_some() {
        raster_image_of(data, glyph_index, 64)
    } else {
        raster_image_of(data, glyph_index, 32)
    }
}

/// A length of `pixels` pixels of a strike made for `pixels_per_em`, scaled
/// to `font_size`: `pixels * font_size / pixels_per_em`, rounded to the
/// nearest. Meant for a positive size and positive pixels per em.
pub open spec fn scaled_dimension(pixels: u32, font_size: Fixed, pixels_per_em: u16) -> int {
    div_round(pixels as int * font_size.raw as int, pixels_per_em as int * 65536)
}

/// Whether an image of `width` by `height` pixels, of a strike made for
/// `pixels_per_em`, is resampled for `font_size`: size and pixels per em
/// are positive, the image has pixels, and what it is scaled to is within
/// what the machine can be asked for: each dimension fits the resampler's
/// 32 bits, and the resampling fits `resample_fits`.
pub open spec fn strike_usable(width: u32, height: u32, font_size: Fixed, pixels_per_em: u16) -> bool {
    &&& font_size.raw > 0
    &&& pixels_per_em > 0
    &&& 1 <= width
    &&& 1 <= height
    &&& scaled_dimension(width, font_size, pixels_per_em) <= u32::MAX
    &&& scaled_dimension(height, font_size, pixels_per_em) <= u32::MAX
    &&& resample_fits(
        width as int,
        scaled_dimension(width, font_size, pixels_per_em),
        scaled_dimension(height, font_size, pixels_per_em),
    )
}

/// Whether a glyph is drawn from a colour bitmap at a font size: the font
/// offers a strike for it, whose image can be decoded and is usable.
pub open spec fn has_color_bitmap(data: Seq<u8>, glyph_index: u16, font_size: Fixed) -> bool {
    match strike_for(data, glyph_index, font_size) {
        Some(strike) => match image_dimensions_of(strike.data) {
            Some((width, height)) => strike_usable(
                width,
                height,
                font_size,
                strike.pixels_per_em,
            ),
            None => false,
        },
        None => false,
    }
}

/// The width and height, in pixels, of the colour bitmap of a glyph at a
/// font size: those of the strike's image, scaled from the strike's pixels
/// per em to the font size. Meant for a glyph that has a colour bitmap.
pub open spec fn color_target(data: Seq<u8>, glyph_index: u16, font_size: Fixed) -> (int, int) {
    let strike = strike_for(data, glyph_index, font_size).unwrap();
    let (width, height) = image_dimensions_of(strike.data).unwrap();
    (
        scaled_dimension(width, font_size, strike.pixels_per_em),
        scaled_dimension(height, font_size, strike.pixels_per_em),
    )
}

/// The colour glyph made of resampled pixels and the glyph's horizontal
/// metrics: the bearing is the font's side bearing at the font size, the
/// bottom of the bitmap sits on the baseline, and a metric that the font
/// lacks counts as zero.
pub open spec fn color_glyph_of(
    pixels: Seq<u8>,
    width: u32,
    height: u32,
    side_bearing: Option<i16>,
    advance: Option<u16>,
    units_per_em: u16,
    font_size: Fixed,
) -> GlyphBitmap {
    GlyphBitmap {
        pixels,
        format: GlyphFormat::Rgba,
        width: width as usize,
        height: height as usize,
        bearing_x: Fixed::scaled(
            match side_bearing {
                Some(units) => units as int,
                None => 0,
            },
            font_size,
            units_per_em as int,
        ),
        bearing_y: Fixed { raw: 0 },
        advance: Fixed::scaled(
            match advance {
                Some(units) => units as int,
                None => 0,
            },
            font_size,
            units_per_em as int,
        ),
    }
}

/// The coverage glyph that an outline rasterizer's result stands for: the
/// bearings are the offsets of the mask. A result whose mask does not hold
/// one byte for each of its pixels stands for the glyph without pixels.
pub open spec fn outline_glyph_of(outline: OutlineBitmap) -> GlyphBitmap {
    if outline.pixels@.len() == outline.width * outline.height {
        GlyphBitmap {
            pixels: outline.pixels@,
            format: GlyphFormat::Alpha,
            width: outline.width,
            height: outline.height,
            bearing_x: Fixed { raw: crate::fixed::clamp_i32(outline.xmin as int * 65536) },
            bearing_y: Fixed { raw: crate::fixed::clamp_i32(outline.ymin as int * 65536) },
            advance: outline.advance_width,
        }
    } else {
        GlyphBitmap::empty()
    }
}

/// Whether `glyph` is the colour glyph of a glyph at a font size: it has
/// the font's metrics at that size, its bitmap has the size that the
/// strike's image is scaled to, and it holds four bytes for each of its
/// pixels. The bytes themselves are the resampler's.
pub open spec fn is_color_glyph(
    data: Seq<u8>,
    metrics: FaceMetrics,
    glyph_index: u16,
    font_size: Fixed,
    glyph: GlyphBitmap,
) -> bool {
    &&& glyph.pixels.len() == 4 * glyph.width * glyph.height
    &&& glyph.width <= u32::MAX
    &&& glyph.height <= u32::MAX
    &&& (glyph.width as int, glyph.height as int) == color_target(data, glyph_index, font_size)
    &&& glyph == color_glyph_of(
        glyph.pixels,
        glyph.width as u32,
        glyph.height as u32,
        side_bearing_of(data, glyph_index),
        hor_advance_of(data, glyph_index),
        metrics.units_per_em,
        font_size,
    )
}

/// What the adapter may return for a glyph at a font size, with `outline`
/// as the outline rasterizer: where the glyph has a colour bitmap, the
/// colour glyph of it; else, for a glyph index that the font does not
/// have, the glyph without pixels; otherwise the glyph of something that
/// `outline` returns for it.
pub open spec fn rasterized<F: Fn(u16, Fixed) -> OutlineBitmap>(
    data: Seq<u8>,
    metrics: FaceMetrics,
    glyph_index: u16,
    font_size: Fixed,
    outline: F,
    glyph: GlyphBitmap,
) -> bool {
    if has_color_bitmap(data, glyph_index, font_size) {
        is_color_glyph(data, metrics, glyph_index, font_size, glyph)
    } else if glyph_index >= glyph_count_of(data) {
        glyph == GlyphBitmap::empty()
    } else {
        exists|o: OutlineBitmap|
            outline.ensures((glyph_index, font_size), o) && glyph == outline_glyph_of(o)
    }
}

/// The pixel data of a colour glyph matches its size and format.
pub proof fn lemma_color_glyph_well_formed(
    data: Seq<u8>,
    metrics: FaceMetrics,
    glyph_index: u16,
    font_size: Fixed,
    glyph: GlyphBitmap,
)
    requires
        is_color_glyph(data, metrics, glyph_index, font_size, glyph),
    ensures
        glyph.well_formed(),
{
    assert(glyph.format == GlyphFormat::Rgba);
    assert(glyph.width * glyph.height * 4 == 4 * glyph.width * glyph.height) by (nonlinear_arith);
}

/// Whatever the adapter returns holds pixel data that matches its size
/// and format.
pub proof fn lemma_rasterized_well_formed<F: Fn(u16, Fixed) -> OutlineBitmap>(
    data: Seq<u8>,
    metrics: FaceMetrics,
    glyph_index: u16,
    font_size: Fixed,
    outline: F,
    glyph: GlyphBitmap,
)
    requires
        rasterized(data, metrics, glyph_index, font_size, outline, glyph),
    ensures
        glyph.well_formed(),
{
    if has_color_bitmap(data, glyph_index, font_size) {
        lemma_color_glyph_well_formed(data, metrics, glyph_index, font_size, glyph);
    }
}

impl RasterizedGlyph {
    /// The coverage glyph that an outline rasterizer's result stands for;
    /// the glyph without pixels for a result whose mask does not hold one
    /// byte for each of its pixels.
    pub fn from_outline(outline: OutlineBitmap) -> (glyph: RasterizedGlyph)
        ensures
            glyph@ == outline_glyph_of(outline),
            glyph@.well_formed(),
    {
        let len = outline.pixels.len();
        let matches = match outline.width.checked_mul(outline.height) {
            Some(area) => area == len,
            None => false,
        };
        if !matches {
            return RasterizedGlyph::empty();
        }
        let bearing_x = Fixed::from_int(outline.xmin);
        let bearing_y = Fixed::from_int(outline.ymin);
        RasterizedGlyph {
            pixels: outline.pixels,
            format: GlyphFormat::Alpha,
            width: outline.width,
            height: outline.height,
            bearing_x,
            bearing_y,
            advance: outline.advance_width,
        }
    }

    /// The colour glyph made of resampled pixels and the glyph's horizontal
    /// metrics in font design units.
    pub fn from_color_bitmap(
        bitmap: ColorBitmap,
        side_bearing: Option<i16>,
        advance: Option<u16>,
        units_per_em: u16,
        font_size: Fixed,
    ) -> (glyph: RasterizedGlyph)
        ensures
            glyph@ == color_glyph_of(
                bitmap.pixels@,
                bitmap.width,
                bitmap.height,
                side_bearing,
                advance,
                units_per_em,
                font_size,
            ),
    {
        let bearing_units: i32 = match side_bearing {
            Some(units) => units as i32,
            None => 0,
        };
        let advance_units: i32 = match advance {
            Some(units) => units as i32,
            None => 0,
        };
        RasterizedGlyph {
            pixels: bitmap.pixels,
            format: GlyphFormat::Rgba,
            width: bitmap.width as usize,
            height: bitmap.height as usize,
            bearing_x: Fixed::scale(bearing_units, font_size, units_per_em),
            bearing_y: Fixed::zero(),
            advance: Fixed::scale(advance_units, font_size, units_per_em),
        }
    }
}

/// The whole pixels of a font size.
pub fn size_in_whole_pixels(font_size: Fixed) -> (r: u16)
    ensures
        r == whole_pixels(font_size),
{
    if font_size.raw <= 0 {
        0
    } else {
        (font_size.raw / 65536) as u16
    }
}

/// Looks up the strike that serves a glyph at a font size.
pub fn find_strike(font: &Font, glyph_index: u16, font_size: Fixed) -> (r: Option<Strike>)
    ensures
        r.is_some() == strike_for(font@, glyph_index, font_size).is_some(),
        r matches Some(strike) ==> strike_for(font@, glyph_index, font_size) == Some(strike@),
{
    let data = font.data();
    let mut found = face_raster_image(data, glyph_index, size_in_whole_pixels(font_size));
    if found.is_none() {
        found = face_raster_image(data, glyph_index, 109);
    }
    if found.is_none() {
        found = face_raster_image(data, glyph_index, 128);
    }
    if found.is_none() {
        found = face_raster_image(data, glyph_index, 96);
    }
    if found.is_none() {
        found = face_raster_image(data, glyph_index, 64);
    }
    if found.is_none() {
        found = face_raster_image(data, glyph_index, 32);
    }
    found
}

/// Scales a length of a strike's image to a font size; `None` where the
/// size or the pixels per em are not positive, or the result does not fit
/// in 32 bits.
pub fn scale_dimension(pixels: u32, font_size: Fixed, pixels_per_em: u16) -> (r: Option<u32>)
    ensures
        r.is_some() == (font_size.raw > 0 && pixels_per_em > 0 && scaled_dimension(
            pixels,
            font_size,
            pixels_per_em,
        ) <= u32::MAX),
        r matches Some(scaled) ==> scaled == scaled_dimension(pixels, font_size, pixels_per_em),
{
    if font_size.raw <= 0 || pixels_per_em == 0 {
        return None;
    }
    assert(0 <= pixels as int * font_size.raw as int <= 0x8000_0000_0000_0000)
        by (nonlinear_arith)
        requires
            0 <= pixels as int <= 0xffff_ffff,
            0 < font_size.raw as int <= 0x7fff_ffff,
    ;
    let n: u64 = (pixels as u64) * (font_size.raw as u64);
    let d: u64 = (pixels_per_em as u64) * 65536;
    proof {
        lemma_div_round(0, n as int, d as int);
    }
    let q: u64 = (n + d / 2) / d;
    if q <= 0xffff_ffff {
        Some(q as u32)
    } else {
        None
    }
}

/// Whether the machine can hold what resampling an image `source_width`
/// pixels wide to `width` by `height` pixels takes.
pub fn resampling_fits(source_width: u32, width: u32, height: u32) -> (r: bool)
    ensures
        r == resample_fits(source_width as int, width as int, height as int),
{
    assert(0 <= 16 * source_width as int * height as int <= 0x10_0000_0000_0000_0000 && 0 <= 16
        * width as int * height as int <= 0x10_0000_0000_0000_0000) by (nonlinear_arith)
        requires
            0 <= source_width as int <= 0xffff_ffff,
            0 <= width as int <= 0xffff_ffff,
            0 <= height as int <= 0xffff_ffff,
    ;
    let limit: u128 = isize::MAX as u128;
    let tall: u128 = 16 * (source_width as u128) * (height as u128);
    let whole: u128 = 16 * (width as u128) * (height as u128);
    tall <= limit && whole <= limit
}

/// Rasterizes a glyph from a colour bitmap of the font, if the glyph has
/// one: the strike's image, resampled to the font size.
pub fn rasterize_color(font: &Font, glyph_index: u16, font_size: Fixed) -> (r: Option<
    RasterizedGlyph,
>)
    ensures
        r.is_some() == has_color_bitmap(font@, glyph_index, font_size),
        r matches Some(glyph) ==> is_color_glyph(
            font@,
            font.metrics(),
            glyph_index,
            font_size,
            glyph@,
        ) && glyph@.well_formed(),
{
    let strike = match find_strike(font, glyph_index, font_size) {
        Some(strike) => strike,
        None => {
            return None;
        },
    };
    let decoded = match decode_image(strike.data.as_slice()) {
        Some(decoded) => decoded,
        None => {
            return None;
        },
    };
    if decoded.width == 0 || decoded.height == 0 {
        return None;
    }
    let width = match scale_dimension(decoded.width, font_size, strike.pixels_per_em) {
        Some(width) => width,
        None => {
            return None;
        },
    };
    let height = match scale_dimension(decoded.height, font_size, strike.pixels_per_em) {
        Some(height) => height,
        None => {
            return None;
        },
    };
    if !resampling_fits(decoded.width, width, height) {
        return None;
    }
    let bitmap = if width == 0 || height == 0 {
        // Nothing is left of the image at this size.
        assert(4 * width * height == 0) by (nonlinear_arith)
            requires
                width == 0 || height == 0,
        ;
        ColorBitmap { pixels: Vec::new(), width, height }
    } else {
        resample_image(&decoded, width, height)
    };
    let side_bearing = face_side_bearing(font.data(), glyph_index);
    let advance = face_hor_advance(font.data(), glyph_index);
    let glyph = RasterizedGlyph::from_color_bitmap(
        bitmap,
        side_bearing,
        advance,
        font.units_per_em(),
        font_size,
    );
    proof {
        lemma_color_glyph_well_formed(font@, font.metrics(), glyph_index, font_size, glyph@);
    }
    Some(glyph)
}

/// Rasterizes a glyph: from a colour bitmap of the font where the glyph has
/// one; else, where the font has the glyph, from its outline, by `outline`.
/// A glyph index that the font does not have gives the glyph without
/// pixels.
pub fn rasterize<F: Fn(u16, Fixed) -> OutlineBitmap>(
    font: &Font,
    glyph_index: u16,
    font_size: Fixed,
    outline: &F,
) -> (glyph: RasterizedGlyph)
    requires
        outline.requires((glyph_index, font_size)),
    ensures
        rasterized(font@, font.metrics(), glyph_index, font_size, *outline, glyph@),
        glyph@.well_formed(),
{
    match rasterize_color(font, glyph_index, font_size) {
        Some(glyph) => glyph,
        None => {
            if glyph_index >= face_glyph_count(font.data()) {
                RasterizedGlyph::empty()
            } else {
                let mask = outline(glyph_index, font_size);
                RasterizedGlyph::from_outline(mask)
            }
        },
    }
}

} // verus!
