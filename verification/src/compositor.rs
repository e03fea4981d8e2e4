//! Compositing of rasterized glyphs onto a packed-pixel buffer.
//!
//! The buffer holds one `0xAARRGGBB` pixel per position, rows from top to
//! bottom. Glyphs are clipped to the buffer pixel by pixel.

use crate::blend::{
    blend_alpha_pixel, blend_bitmap, blend_coverage, blend_rgba_pixel, pack_argb, unpack_argb,
};
use crate::color::Color;
use crate::fixed::{div_round, lemma_div_round};
use crate::geometry::Point;
use crate::text::glyph::{GlyphBitmap, GlyphFormat, RasterizedGlyph};
use vstd::prelude::*;

verus! {

/// The device pixel at which the top-left corner of a glyph's bitmap lands
/// when the glyph's origin is at `position`: the bitmap's left edge is
/// `bearing_x` right of the origin, and its bottom edge `bearing_y` above it,
/// the device's y growing downwards.
pub open spec fn device_origin(position: Point, glyph: GlyphBitmap) -> (int, int) {
    (
        div_round(position.x.raw + glyph.bearing_x.raw, 65536),
        div_round(position.y.raw - glyph.bearing_y.raw - glyph.height * 65536, 65536),
    )
}

/// The pixel `dst` after the glyph's pixel in column `gx` and row `gy` of its
/// bitmap is blended into it.
pub open spec fn composite(dst: u32, glyph: GlyphBitmap, gx: int, gy: int, paint: Color) -> u32 {
    let k = gy * glyph.width + gx;
    match glyph.format {
        GlyphFormat::Alpha => pack_argb(blend_coverage(unpack_argb(dst), paint, glyph.pixels[k])),
        GlyphFormat::Rgba => pack_argb(
            blend_bitmap(
                unpack_argb(dst),
                Color {
                    r: glyph.pixels[4 * k],
                    g: glyph.pixels[4 * k + 1],
                    b: glyph.pixels[4 * k + 2],
                    a: glyph.pixels[4 * k + 3],
                },
                paint.a,
            ),
        ),
    }
}

/// Whether the buffer position `i` of a buffer `width` pixels wide lies under
/// a bitmap of `gw` by `gh` pixels whose top-left corner is at `(x, y)`.
pub open spec fn covered(i: int, width: int, x: int, y: int, gw: int, gh: int) -> bool {
    0 <= i % width - x < gw && 0 <= i / width - y < gh
}

/// The pixel at position `i` of the buffer after the glyph is drawn.
pub open spec fn blit_pixel(
    buf: Seq<u32>,
    width: int,
    position: Point,
    glyph: GlyphBitmap,
    paint: Color,
    i: int,
) -> u32 {
    let (x, y) = device_origin(position, glyph);
    if covered(i, width, x, y, glyph.width as int, glyph.height as int) {
        composite(buf[i], glyph, i % width - x, i / width - y, paint)
    } else {
        buf[i]
    }
}

/// The buffer after one glyph is drawn with its origin at `position`: every
/// buffer pixel under the glyph's bitmap is blended with the bitmap's pixel
/// above it, all others stay. A glyph that is not drawable changes nothing.
pub open spec fn blit_glyph_spec(
    buf: Seq<u32>,
    width: int,
    position: Point,
    glyph: GlyphBitmap,
    paint: Color,
) -> Seq<u32> {
    if glyph.drawable() && width > 0 {
        Seq::new(buf.len(), |i: int| blit_pixel(buf, width, position, glyph, paint, i))
    } else {
        buf
    }
}

/// The buffer after the glyphs are drawn one after the other, the first one first.
pub open spec fn blit_spec(
    buf: Seq<u32>,
    width: int,
    glyphs: Seq<(Point, GlyphBitmap)>,
    paint: Color,
) -> Seq<u32>
    decreases glyphs.len(),
{
    if glyphs.len() == 0 {
        buf
    } else {
        blit_glyph_spec(
            blit_spec(buf, width, glyphs.drop_last(), paint),
            width,
            glyphs.last().0,
            glyphs.last().1,
            paint,
        )
    }
}

/// Row and column of a buffer position.
proof fn lemma_row_col(i: int, width: int, height: int)
    requires
        width > 0,
        0 <= i < width * height,
    ensures
        0 <= i % width < width,
        0 <= i / width < height,
        i == (i / width) * width + i % width,
{
    vstd::arithmetic::div_mod::lemma_fundamental_div_mod(i, width);
    vstd::arithmetic::div_mod::lemma_mod_bound(i, width);
    let r = i / width;
    assert(r * width == width * r) by (nonlinear_arith);
    if r >= height {
        assert(r * width >= height * width) by (nonlinear_arith)
            requires
                r >= height,
                width > 0,
        ;
        assert(height * width == width * height) by (nonlinear_arith);
    }
    if r < 0 {
        assert(r * width <= -width) by (nonlinear_arith)
            requires
                r <= -1,
                width > 0,
        ;
    }
}

/// The buffer position of a row and a column.
proof fn lemma_position(row: int, col: int, width: int, height: int)
    requires
        0 <= col < width,
        0 <= row < height,
    ensures
        0 <= row * width + col < width * height,
        (row * width + col) / width == row,
        (row * width + col) % width == col,
{
    vstd::arithmetic::div_mod::lemma_fundamental_div_mod_converse(
        row * width + col,
        width,
        row,
        col,
    );
    assert(0 <= row * width && row * width + width <= width * height) by (nonlinear_arith)
        requires
            0 <= row,
            row + 1 <= height,
            width > 0,
    ;
}

/// A glyph of zero width or zero height never touches the buffer.
pub proof fn lemma_zero_size_untouched(
    buf: Seq<u32>,
    width: int,
    position: Point,
    glyph: GlyphBitmap,
    paint: Color,
)
    requires
        glyph.width == 0 || glyph.height == 0,
    ensures
        blit_glyph_spec(buf, width, position, glyph, paint) == buf,
{
}

/// A glyph whose bitmap lies entirely outside the buffer leaves the buffer
/// as it is: to the left of it or above it, or starting at or beyond its
/// right or bottom edge.
pub proof fn lemma_outside_untouched(
    buf: Seq<u32>,
    width: int,
    height: int,
    position: Point,
    glyph: GlyphBitmap,
    paint: Color,
)
    requires
        width >= 0,
        height >= 0,
        buf.len() == width * height,
        ({
            let (x, y) = device_origin(position, glyph);
            x + glyph.width <= 0 || y + glyph.height <= 0 || x >= width || y >= height
        }),
    ensures
        blit_glyph_spec(buf, width, position, glyph, paint) == buf,
{
    if glyph.drawable() && width > 0 {
        assert forall|i: int| 0 <= i < buf.len() implies blit_pixel(
            buf,
            width,
            position,
            glyph,
            paint,
            i,
        ) == buf[i] by {
            lemma_row_col(i, width, height);
        }
        assert(blit_glyph_spec(buf, width, position, glyph, paint) =~= buf);
    }
}

/// A pixel that the glyph's bitmap does not cover keeps its value, and the
/// buffer keeps its length.
pub proof fn lemma_uncovered_untouched(
    buf: Seq<u32>,
    width: int,
    position: Point,
    glyph: GlyphBitmap,
    paint: Color,
    i: int,
)
    requires
        0 <= i < buf.len(),
        ({
            let (x, y) = device_origin(position, glyph);
            !covered(i, width, x, y, glyph.width as int, glyph.height as int)
        }),
    ensures
        blit_glyph_spec(buf, width, position, glyph, paint).len() == buf.len(),
        blit_glyph_spec(buf, width, position, glyph, paint)[i] == buf[i],
{
}

/// The nearest whole number to `v / 65536`, ties away from zero.
fn round_wide(v: i128) -> (r: i128)
    requires
        -0x1_0000_0000_0000_0000_0000_0000 <= v <= 0x1_0000_0000_0000_0000_0000_0000,
    ensures
        r == div_round(v as int, 65536),
        v >= 0 ==> 0 <= r <= v,
        v <= 0 ==> v <= r <= 0,
{
    proof {
        if v >= 0 {
            lemma_div_round(0, v as int, 65536);
        } else {
            lemma_div_round(v as int, 0, 65536);
        }
    }
    if v >= 0 {
        let q: u128 = (v as u128 + 32768) / 65536;
        q as i128
    } else {
        let q: u128 = ((-v) as u128 + 32768) / 65536;
        -(q as i128)
    }
}

/// Blends the glyph's pixel in column `gx` and row `gy` into the buffer at `idx`.
fn composite_at(
    buffer: &mut [u32],
    idx: usize,
    glyph: &RasterizedGlyph,
    gx: usize,
    gy: usize,
    paint: Color,
)
    requires
        idx < old(buffer)@.len(),
        glyph@.drawable(),
        gx < glyph.width,
        gy < glyph.height,
    ensures
        final(buffer)@ == old(buffer)@.update(
            idx as int,
            composite(old(buffer)@[idx as int], glyph@, gx as int, gy as int, paint),
        ),
{
    let ghost w = glyph.width as int;
    let ghost h = glyph.height as int;
    proof {
        assert(glyph.pixels.len() == glyph.pixels@.len());
        lemma_position(gy as int, gx as int, w, h);
        let area = w * h;
        assert(area >= 0) by (nonlinear_arith)
            requires
                area == w * h,
                w >= 0,
                h >= 0,
        ;
        assert(area * glyph@.bytes_per_pixel() <= glyph.pixels@.len());
        assert(0 <= gy * w <= gy * w + gx) by (nonlinear_arith)
            requires
                0 <= gy,
                0 <= w,
                0 <= gx,
        ;
    }
    let k: usize = gy * glyph.width + gx;
    let existing: u32 = buffer[idx];
    match glyph.format {
        GlyphFormat::Alpha => {
            buffer[idx] = blend_alpha_pixel(existing, paint, glyph.pixels[k]);
        },
        GlyphFormat::Rgba => {
            let src = Color {
                r: glyph.pixels[4 * k],
                g: glyph.pixels[4 * k + 1],
                b: glyph.pixels[4 * k + 2],
                a: glyph.pixels[4 * k + 3],
            };
            buffer[idx] = blend_rgba_pixel(existing, src, paint.a);
        },
    }
}

/// Draws one rasterized glyph with its origin at `position` into a buffer
/// of `width` by `height` pixels, clipped to the buffer. A glyph without
/// pixels, or whose pixel data is shorter than its dimensions ask for, is
/// skipped.
pub fn blit_glyph(
    buffer: &mut [u32],
    width: usize,
    height: usize,
    position: Point,
    glyph: &RasterizedGlyph,
    paint: Color,
)
    requires
        old(buffer)@.len() == width * height,
    ensures
        final(buffer)@ == blit_glyph_spec(old(buffer)@, width as int, position, glyph@, paint),
{
    if !glyph.is_drawable() || width == 0 {
        return;
    }
    let ghost before = buffer@;
    assert(buffer.len() == before.len());
    let ghost w = width as int;
    let ghost h = height as int;
    let ghost gw = glyph.width as int;
    let ghost gh = glyph.height as int;
    let x: i128 = round_wide(position.x.raw as i128 + glyph.bearing_x.raw as i128);
    let y: i128 = round_wide(
        position.y.raw as i128 - glyph.bearing_y.raw as i128 - (glyph.height as i128) * 65536,
    );
    assert((x as int, y as int) == device_origin(position, glyph@));
    let right: i128 = x + glyph.width as i128;
    let bottom: i128 = y + glyph.height as i128;
    let x0: i128 = if x > 0 { x } else { 0 };
    let y0: i128 = if y > 0 { y } else { 0 };
    let x1: i128 = if right < width as i128 { right } else { width as i128 };
    let y1: i128 = if bottom < height as i128 { bottom } else { height as i128 };
    if x0 >= x1 || y0 >= y1 {
        proof {
            assert forall|i: int| 0 <= i < before.len() implies blit_pixel(
                before,
                w,
                position,
                glyph@,
                paint,
                i,
            ) == before[i] by {
                lemma_row_col(i, w, h);
            }
            assert(buffer@ =~= blit_glyph_spec(before, w, position, glyph@, paint));
        }
        return;
    }
    let tx0: usize = x0 as usize;
    let tx1: usize = x1 as usize;
    let ty0: usize = y0 as usize;
    let ty1: usize = y1 as usize;
    let mut ty: usize = ty0;
    proof {
        assert forall|i: int| 0 <= i < before.len() && i / w < ty0 implies blit_pixel(
            before,
            w,
            position,
            glyph@,
            paint,
            i,
        ) == before[i] by {
            lemma_row_col(i, w, h);
        }
    }
    while ty < ty1
        invariant
            w == width as int && h == height as int && gw == glyph.width as int && gh
                == glyph.height as int,
            glyph@.drawable(),
            w > 0,
            (x as int, y as int) == device_origin(position, glyph@),
            0 <= tx0 < tx1 <= width,
            0 <= ty0 <= ty <= ty1 <= height,
            tx0 == (if x > 0 { x as int } else { 0 }),
            tx1 == (if x + gw < w { x + gw } else { w }),
            ty0 == (if y > 0 { y as int } else { 0 }),
            ty1 == (if y + gh < h { y + gh } else { h }),
            before.len() == w * h <= usize::MAX,
            buffer@.len() == before.len(),
            forall|i: int|
                0 <= i < before.len() ==> buffer@[i] == (if i / w < ty {
                    blit_pixel(before, w, position, glyph@, paint, i)
                } else {
                    before[i]
                }),
        decreases ty1 - ty,
    {
        let gy: usize = (ty as i128 - y) as usize;
        let mut tx: usize = tx0;
        proof {
            assert forall|i: int|
                0 <= i < before.len() && i / w == ty && i % w < tx0 implies blit_pixel(
                before,
                w,
                position,
                glyph@,
                paint,
                i,
            ) == before[i] by {
                lemma_row_col(i, w, h);
            }
        }
        while tx < tx1
            invariant
                w == width as int && h == height as int && gw == glyph.width as int && gh
                    == glyph.height as int,
                glyph@.drawable(),
                w > 0,
                (x as int, y as int) == device_origin(position, glyph@),
                0 <= tx0 <= tx <= tx1 <= width,
                0 <= ty0 <= ty < ty1 <= height,
                tx0 == (if x > 0 { x as int } else { 0 }),
                tx1 == (if x + gw < w { x + gw } else { w }),
                ty0 == (if y > 0 { y as int } else { 0 }),
                ty1 == (if y + gh < h { y + gh } else { h }),
                gy == ty - y,
                before.len() == w * h <= usize::MAX,
                buffer@.len() == before.len(),
                forall|i: int|
                    0 <= i < before.len() ==> buffer@[i] == (if i / w < ty || (i / w == ty && i % w
                        < tx) {
                        blit_pixel(before, w, position, glyph@, paint, i)
                    } else {
                        before[i]
                    }),
            decreases tx1 - tx,
        {
            let gx: usize = (tx as i128 - x) as usize;
            proof {
                lemma_position(ty as int, tx as int, w, h);
                assert(0 <= ty * w <= ty * w + tx) by (nonlinear_arith)
                    requires
                        0 <= ty,
                        0 <= w,
                        0 <= tx,
                ;
            }
            let idx: usize = ty * width + tx;
            let ghost prev = buffer@;
            composite_at(buffer, idx, glyph, gx, gy, paint);
            proof {
                assert forall|i: int| 0 <= i < before.len() implies buffer@[i] == (if i / w < ty
                    || (i / w == ty && i % w < tx + 1) {
                    blit_pixel(before, w, position, glyph@, paint, i)
                } else {
                    before[i]
                }) by {
                    lemma_row_col(i, w, h);
                    if i != idx {
                        assert(buffer@[i] == prev[i]);
                    }
                }
            }
            tx += 1;
        }
        proof {
            assert forall|i: int|
                0 <= i < before.len() && i / w == ty && i % w >= tx1 implies blit_pixel(
                before,
                w,
                position,
                glyph@,
                paint,
                i,
            ) == before[i] by {
                lemma_row_col(i, w, h);
            }
        }
        ty += 1;
    }
    proof {
        assert forall|i: int| 0 <= i < before.len() && i / w >= ty1 implies blit_pixel(
            before,
            w,
            position,
            glyph@,
            paint,
            i,
        ) == before[i] by {
            lemma_row_col(i, w, h);
        }
        assert(buffer@ =~= blit_glyph_spec(before, w, position, glyph@, paint));
    }
}

} // verus!
