//! Per-pixel alpha math on packed `0xAARRGGBB` pixels.

use crate::color::{lemma_scale_channel_bounds, mul_div_255, scale_channel, Color};
use vstd::prelude::*;

verus! {

/// The packed pixel `0xAARRGGBB` that holds the channels of `c`.
pub open spec fn pack_argb(c: Color) -> u32 {
    (c.a as int * 0x100_0000 + c.r as int * 0x1_0000 + c.g as int * 0x100 + c.b as int) as u32
}

/// The channels of the packed pixel `p`.
pub open spec fn unpack_argb(p: u32) -> Color {
    Color {
        a: (p as int / 0x100_0000) as u8,
        r: ((p as int / 0x1_0000) % 256) as u8,
        g: ((p as int / 0x100) % 256) as u8,
        b: (p as int % 256) as u8,
    }
}

/// Packing and unpacking are inverse to each other.
pub proof fn lemma_pack_unpack(c: Color, p: u32)
    ensures
        unpack_argb(pack_argb(c)) == c,
        pack_argb(unpack_argb(p)) == p,
        pack_argb(c) as int == c.a as int * 0x100_0000 + c.r as int * 0x1_0000 + c.g as int * 0x100
            + c.b as int,
{
    let a: u32 = c.a as u32;
    let r: u32 = c.r as u32;
    let g: u32 = c.g as u32;
    let b: u32 = c.b as u32;
    let q: u32 = (a * 0x100_0000 + r * 0x1_0000 + g * 0x100 + b) as u32;
    assert(q / 0x100_0000 == a && (q / 0x1_0000) % 256 == r && (q / 0x100) % 256 == g && q % 256
        == b) by (bit_vector)
        requires
            a < 256,
            r < 256,
            g < 256,
            b < 256,
            q == a * 0x100_0000 + r * 0x1_0000 + g * 0x100 + b,
    ;
    assert(pack_argb(c) == q);
    assert((p / 0x100_0000) * 0x100_0000 + ((p / 0x1_0000) % 256) * 0x1_0000 + ((p / 0x100) % 256)
        * 0x100 + p % 256 == p && p / 0x100_0000 < 256) by (bit_vector);
}

/// Packs four channels into one `0xAARRGGBB` pixel.
pub fn pack(c: Color) -> (p: u32)
    ensures
        p == pack_argb(c),
{
    let a: u32 = c.a as u32;
    let r: u32 = c.r as u32;
    let g: u32 = c.g as u32;
    let b: u32 = c.b as u32;
    assert((a << 24 | r << 16 | g << 8 | b) == a * 0x100_0000 + r * 0x1_0000 + g * 0x100 + b)
        by (bit_vector)
        requires
            a < 256,
            r < 256,
            g < 256,
            b < 256,
    ;
    a << 24 | r << 16 | g << 8 | b
}

/// Splits a `0xAARRGGBB` pixel into its channels.
pub fn unpack(p: u32) -> (c: Color)
    ensures
        c == unpack_argb(p),
{
    assert((p >> 24) & 0xff == p / 0x100_0000 && (p >> 16) & 0xff == (p / 0x1_0000) % 256 && (p
        >> 8) & 0xff == (p / 0x100) % 256 && p & 0xff == p % 256) by (bit_vector);
    Color {
        a: ((p >> 24) & 0xff) as u8,
        r: ((p >> 16) & 0xff) as u8,
        g: ((p >> 8) & 0xff) as u8,
        b: (p & 0xff) as u8,
    }
}

/// Source-over for one colour channel with a straight source: the source
/// weighted by `src_a`, the destination by what is left of 255.
pub open spec fn over_channel(src: u8, dst: u8, src_a: u8) -> u8 {
    ((src as int * src_a as int + dst as int * (255 - src_a as int)) / 255) as u8
}

/// Alpha accumulation of source-over: `dst_a + src_a - dst_a * src_a / 255`.
pub open spec fn over_alpha(dst_a: u8, src_a: u8) -> u8 {
    (dst_a as int + src_a as int - (dst_a as int * src_a as int) / 255) as u8
}

/// Source-over for one channel whose source is already weighted by `src_a`.
pub open spec fn over_premultiplied(pre: u8, dst: u8, src_a: u8) -> u8 {
    (pre as int + (dst as int * (255 - src_a as int)) / 255) as u8
}

/// A coverage value of a grayscale mask, painted in `paint` over `dst`.
///
/// The source alpha is the coverage modulated by the paint's alpha; the
/// paint's colour is blended with that weight.
pub open spec fn blend_coverage(dst: Color, paint: Color, coverage: u8) -> Color {
    let src_a = scale_channel(coverage, paint.a);
    Color {
        r: over_channel(paint.r, dst.r, src_a),
        g: over_channel(paint.g, dst.g, src_a),
        b: over_channel(paint.b, dst.b, src_a),
        a: over_alpha(dst.a, src_a),
    }
}

/// A pixel `src` of a colour bitmap (straight alpha) drawn over `dst` with
/// opacity `paint_alpha`.
///
/// The source alpha is the pixel's own alpha modulated by `paint_alpha`; the
/// pixel's colour channels are premultiplied by it, and all four channels
/// are then laid over the destination.
pub open spec fn blend_bitmap(dst: Color, src: Color, paint_alpha: u8) -> Color {
    let src_a = scale_channel(src.a, paint_alpha);
    Color {
        r: over_premultiplied(scale_channel(src.r, src_a), dst.r, src_a),
        g: over_premultiplied(scale_channel(src.g, src_a), dst.g, src_a),
        b: over_premultiplied(scale_channel(src.b, src_a), dst.b, src_a),
        a: over_premultiplied(src_a, dst.a, src_a),
    }
}

/// None of the three blend formulas leaves the range of a channel, and a
/// source alpha of zero leaves the destination as it is.
pub proof fn lemma_over_bounds(src: u8, dst: u8, src_a: u8)
    ensures
        0 <= (src as int * src_a as int + dst as int * (255 - src_a as int)) / 255 <= 255,
        0 <= dst as int + src_a as int - (dst as int * src_a as int) / 255 <= 255,
        0 <= (dst as int * (255 - src_a as int)) / 255 <= 255 - src_a as int,
        src_a == 0 ==> over_channel(src, dst, src_a) == dst,
        src_a == 0 ==> over_alpha(dst, src_a) == dst,
        src_a == 0 ==> over_premultiplied(0, dst, src_a) == dst,
        src_a == 255 ==> over_channel(src, dst, src_a) == src,
        dst == 255 ==> over_alpha(dst, src_a) == 255,
        dst == 255 ==> over_premultiplied(src_a, dst, src_a) == 255,
        over_alpha(dst, src_a) >= dst,
        over_alpha(dst, src_a) >= src_a,
{
    let s = src as int;
    let d = dst as int;
    let a = src_a as int;
    assert(0 <= s * a + d * (255 - a) <= 255 * 255) by (nonlinear_arith)
        requires
            0 <= s <= 255,
            0 <= d <= 255,
            0 <= a <= 255,
    ;
    assert(0 <= d * a <= 255 * a && d * a <= 255 * d && d * a >= 255 * (d + a - 255))
        by (nonlinear_arith)
        requires
            0 <= d <= 255,
            0 <= a <= 255,
    ;
    assert(0 <= d * (255 - a) <= 255 * (255 - a)) by (nonlinear_arith)
        requires
            0 <= d <= 255,
            0 <= a <= 255,
    ;
    if a == 0 {
        assert(s * a + d * (255 - a) == d * 255) by (nonlinear_arith)
            requires
                a == 0,
        ;
        assert(d * (255 - a) == d * 255) by (nonlinear_arith)
            requires
                a == 0,
        ;
        assert(d * a == 0) by (nonlinear_arith)
            requires
                a == 0,
        ;
    }
    if a == 255 {
        assert(s * a + d * (255 - a) == s * 255) by (nonlinear_arith)
            requires
                a == 255,
        ;
    }
    if d == 255 {
        assert(d * a == a * 255 && d * (255 - a) == (255 - a) * 255) by (nonlinear_arith)
            requires
                d == 255,
        ;
    }
}

/// Full coverage in an opaque paint replaces the pixel by the paint.
pub proof fn lemma_opaque_coverage_replaces(dst: Color, paint: Color)
    requires
        paint.a == 255,
    ensures
        blend_coverage(dst, paint, 255) == paint,
{
    lemma_scale_channel_bounds(255, paint.a);
    lemma_over_bounds(paint.r, dst.r, 255);
    lemma_over_bounds(paint.g, dst.g, 255);
    lemma_over_bounds(paint.b, dst.b, 255);
    lemma_over_bounds(paint.a, dst.a, 255);
    assert(dst.a as int * 255 / 255 == dst.a as int);
}

/// An opaque pixel stays opaque, whatever is blended over it.
pub proof fn lemma_opaque_stays_opaque(dst: Color, paint: Color, coverage: u8, src: Color)
    requires
        dst.a == 255,
    ensures
        blend_coverage(dst, paint, coverage).a == 255,
        blend_bitmap(dst, src, paint.a).a == 255,
{
    lemma_over_bounds(0, dst.a, scale_channel(coverage, paint.a));
    lemma_over_bounds(0, dst.a, scale_channel(src.a, paint.a));
}

/// A channel of a colour bitmap laid over a destination lands between
/// the two, but for the one that rounding down may take off: over an
/// opaque background the blend is a mix of source and destination.
pub proof fn lemma_premultiplied_mix(src: u8, dst: u8, src_a: u8)
    ensures
        src <= dst ==> src as int - 1 <= over_premultiplied(scale_channel(src, src_a), dst, src_a)
            <= dst,
        dst <= src ==> dst as int - 1 <= over_premultiplied(scale_channel(src, src_a), dst, src_a)
            <= src,
{
    let s = src as int;
    let d = dst as int;
    let a = src_a as int;
    lemma_scale_channel_bounds(src, src_a);
    lemma_over_bounds(0, dst, src_a);
    let pre = (s * a) / 255;
    let rest = (d * (255 - a)) / 255;
    assert(pre == scale_channel(src, src_a) as int);
    assert(0 <= s * a && 0 <= d * (255 - a)) by (nonlinear_arith)
        requires
            0 <= s,
            0 <= d,
            0 <= a <= 255,
    ;
    // 255 * pre <= s * a < 255 * pre + 255, and the same for the rest.
    assert(255 * pre <= s * a < 255 * pre + 255);
    assert(255 * rest <= d * (255 - a) < 255 * rest + 255);
    if s <= d {
        assert(s * a + d * (255 - a) <= d * 255 && s * a + d * (255 - a) >= s * 255)
            by (nonlinear_arith)
            requires
                0 <= s <= d,
                0 <= a <= 255,
        ;
    } else {
        assert(s * a + d * (255 - a) <= s * 255 && s * a + d * (255 - a) >= d * 255)
            by (nonlinear_arith)
            requires
                0 <= d <= s,
                0 <= a <= 255,
        ;
    }
}

/// Blends one colour channel of a straight source over the destination.
fn blend_channel(src: u8, dst: u8, src_a: u8) -> (r: u8)
    ensures
        r == over_channel(src, dst, src_a),
{
    proof {
        lemma_over_bounds(src, dst, src_a);
    }
    let inv: u32 = 255 - src_a as u32;
    assert(src as int * src_a as int <= 255 * 255 && dst as int * inv as int <= 255 * 255)
        by (nonlinear_arith)
        requires
            0 <= src as int <= 255,
            0 <= dst as int <= 255,
            0 <= src_a as int <= 255,
            0 <= inv as int <= 255,
    ;
    let wide: u32 = (src as u32 * src_a as u32 + dst as u32 * inv) / 255;
    wide as u8
}

/// Lays one premultiplied channel over the destination.
fn blend_premultiplied(pre: u8, dst: u8, src_a: u8) -> (r: u8)
    requires
        pre <= src_a,
    ensures
        r == over_premultiplied(pre, dst, src_a),
{
    proof {
        lemma_over_bounds(pre, dst, src_a);
    }
    let rest: u8 = mul_div_255(dst, 255 - src_a);
    pre + rest
}

/// Blends one coverage value of a grayscale mask, painted in `paint`, into
/// the packed pixel `existing`.
pub fn blend_alpha_pixel(existing: u32, paint: Color, coverage: u8) -> (p: u32)
    ensures
        p == pack_argb(blend_coverage(unpack_argb(existing), paint, coverage)),
        scale_channel(coverage, paint.a) == 0 ==> p == existing,
{
    let src_a = mul_div_255(coverage, paint.a);
    proof {
        lemma_pack_unpack(paint, existing);
        let d = unpack_argb(existing);
        lemma_over_bounds(paint.r, d.r, src_a);
        lemma_over_bounds(paint.g, d.g, src_a);
        lemma_over_bounds(paint.b, d.b, src_a);
        lemma_over_bounds(paint.a, d.a, src_a);
    }
    if src_a == 0 {
        return existing;
    }
    let dst = unpack(existing);
    let kept: u8 = mul_div_255(dst.a, src_a);
    let out = Color {
        r: blend_channel(paint.r, dst.r, src_a),
        g: blend_channel(paint.g, dst.g, src_a),
        b: blend_channel(paint.b, dst.b, src_a),
        a: ((dst.a as u16 + src_a as u16) - kept as u16) as u8,
    };
    pack(out)
}

/// Blends one pixel `src` of a colour bitmap into the packed pixel
/// `existing`, with opacity `paint_alpha`.
pub fn blend_rgba_pixel(existing: u32, src: Color, paint_alpha: u8) -> (p: u32)
    ensures
        p == pack_argb(blend_bitmap(unpack_argb(existing), src, paint_alpha)),
        scale_channel(src.a, paint_alpha) == 0 ==> p == existing,
{
    let src_a = mul_div_255(src.a, paint_alpha);
    proof {
        lemma_pack_unpack(src, existing);
        let d = unpack_argb(existing);
        lemma_over_bounds(0, d.r, src_a);
        lemma_over_bounds(0, d.g, src_a);
        lemma_over_bounds(0, d.b, src_a);
        lemma_over_bounds(0, d.a, src_a);
        lemma_scale_channel_bounds(src.r, src_a);
        lemma_scale_channel_bounds(src.g, src_a);
        lemma_scale_channel_bounds(src.b, src_a);
    }
    if src_a == 0 {
        return existing;
    }
    let dst = unpack(existing);
    let out = Color {
        r: blend_premultiplied(mul_div_255(src.r, src_a), dst.r, src_a),
        g: blend_premultiplied(mul_div_255(src.g, src_a), dst.g, src_a),
        b: blend_premultiplied(mul_div_255(src.b, src_a), dst.b, src_a),
        a: blend_premultiplied(src_a, dst.a, src_a),
    };
    pack(out)
}

} // verus!
