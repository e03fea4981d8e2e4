//! Colour representation and manipulation.

use vstd::prelude::*;

verus! {

/// RGBA colour with 8-bit channels, alpha not premultiplied.
#[derive(Debug, Clone, Copy, PartialEq, Eq, Structural)]
pub struct Color {
    pub r: u8,
    pub g: u8,
    pub b: u8,
    pub a: u8,
}

/// A channel value weighted by an alpha value: `channel * alpha / 255`, rounded down.
pub open spec fn scale_channel(channel: u8, alpha: u8) -> u8 {
    ((channel as int * alpha as int) / 255) as u8
}

/// The weighted channel never exceeds either of its factors, and full weight keeps it.
pub proof fn lemma_scale_channel_bounds(channel: u8, alpha: u8)
    ensures
        (channel as int * alpha as int) / 255 == scale_channel(channel, alpha) as int,
        scale_channel(channel, alpha) <= channel,
        scale_channel(channel, alpha) <= alpha,
        alpha == 255 ==> scale_channel(channel, alpha) == channel,
        alpha == 0 ==> scale_channel(channel, alpha) == 0,
        channel == 255 ==> scale_channel(channel, alpha) == alpha,
        channel == 0 ==> scale_channel(channel, alpha) == 0,
{
    let c = channel as int;
    let a = alpha as int;
    assert(0 <= c * a <= 255 * c && c * a <= 255 * a) by (nonlinear_arith)
        requires
            0 <= c <= 255,
            0 <= a <= 255,
    ;
}

/// Computes `channel * alpha / 255`, rounded down.
pub fn mul_div_255(channel: u8, alpha: u8) -> (r: u8)
    ensures
        r == scale_channel(channel, alpha),
        r <= channel,
        r <= alpha,
{
    proof {
        lemma_scale_channel_bounds(channel, alpha);
    }
    let wide: u16 = (channel as u16) * (alpha as u16) / 255;
    wide as u8
}

impl Color {
    /// Opaque white.
    pub fn white() -> (c: Color)
        ensures
            c == (Color { r: 255, g: 255, b: 255, a: 255 }),
    {
        Color { r: 255, g: 255, b: 255, a: 255 }
    }

    /// Opaque black.
    pub fn black() -> (c: Color)
        ensures
            c == (Color { r: 0, g: 0, b: 0, a: 255 }),
    {
        Color { r: 0, g: 0, b: 0, a: 255 }
    }

    /// Opaque red.
    pub fn red() -> (c: Color)
        ensures
            c == (Color { r: 255, g: 0, b: 0, a: 255 }),
    {
        Color { r: 255, g: 0, b: 0, a: 255 }
    }

    /// Opaque green.
    pub fn green() -> (c: Color)
        ensures
            c == (Color { r: 0, g: 255, b: 0, a: 255 }),
    {
        Color { r: 0, g: 255, b: 0, a: 255 }
    }

    /// Opaque blue.
    pub fn blue() -> (c: Color)
        ensures
            c == (Color { r: 0, g: 0, b: 255, a: 255 }),
    {
        Color { r: 0, g: 0, b: 255, a: 255 }
    }

    /// Fully transparent black.
    pub fn transparent() -> (c: Color)
        ensures
            c == (Color { r: 0, g: 0, b: 0, a: 0 }),
    {
        Color { r: 0, g: 0, b: 0, a: 0 }
    }

    /// Creates a colour from RGBA values (0-255).
    pub fn rgba(r: u8, g: u8, b: u8, a: u8) -> (c: Color)
        ensures
            c == (Color { r, g, b, a }),
    {
        Color { r, g, b, a }
    }

    /// Creates a colour from RGB values with full opacity.
    pub fn rgb(r: u8, g: u8, b: u8) -> (c: Color)
        ensures
            c == (Color { r, g, b, a: 255 }),
    {
        Color::rgba(r, g, b, 255)
    }

    /// The colour with each colour channel weighted by the alpha channel.
    pub open spec fn premultiplied(self) -> Color {
        Color {
            r: scale_channel(self.r, self.a),
            g: scale_channel(self.g, self.a),
            b: scale_channel(self.b, self.a),
            a: self.a,
        }
    }

    /// Converts to premultiplied alpha.
    pub fn premultiply(&self) -> (c: Color)
        ensures
            c == self.premultiplied(),
            c.a == self.a,
            c.r <= self.r && c.g <= self.g && c.b <= self.b,
            c.r <= self.a && c.g <= self.a && c.b <= self.a,
    {
        Color {
            r: mul_div_255(self.r, self.a),
            g: mul_div_255(self.g, self.a),
            b: mul_div_255(self.b, self.a),
            a: self.a,
        }
    }
}

impl Default for Color {
    /// Opaque black.
    fn default() -> (c: Color)
        ensures
            c == (Color { r: 0, g: 0, b: 0, a: 255 }),
    {
        Color { r: 0, g: 0, b: 0, a: 255 }
    }
}

} // verus!
