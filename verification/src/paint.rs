//! Paint styles and stroke configuration.

use crate::color::Color;
use crate::fixed::{Fixed, FIXED_ONE};
use vstd::prelude::*;

verus! {

/// Blend modes for compositing.
#[derive(Debug, Clone, Copy, PartialEq, Eq, Structural)]
pub enum BlendMode {
    /// Source over destination (default).
    SrcOver,
    /// Source.
    Src,
    /// Destination.
    Dst,
    /// Clear.
    Clear,
    /// Multiply.
    Multiply,
    /// Screen.
    Screen,
    /// Overlay.
    Overlay,
}

impl Default for BlendMode {
    fn default() -> (mode: BlendMode)
        ensures
            mode == BlendMode::SrcOver,
    {
        BlendMode::SrcOver
    }
}

/// Stroke line cap style.
#[derive(Debug, Clone, Copy, PartialEq, Eq, Structural)]
pub enum LineCap {
    Butt,
    Round,
    Square,
}

/// Stroke line join style.
#[derive(Debug, Clone, Copy, PartialEq, Eq, Structural)]
pub enum LineJoin {
    Miter,
    Round,
    Bevel,
}

/// Stroke style configuration.
#[derive(Debug, Clone, Copy, PartialEq, Eq, Structural)]
pub struct StrokeStyle {
    pub width: Fixed,
    pub cap: LineCap,
    pub join: LineJoin,
    pub miter_limit: Fixed,
}

impl Default for StrokeStyle {
    /// A stroke one pixel wide with butt caps, miter joins and a miter limit of 4.
    fn default() -> (style: StrokeStyle)
        ensures
            style == (StrokeStyle {
                width: Fixed { raw: 65536 },
                cap: LineCap::Butt,
                join: LineJoin::Miter,
                miter_limit: Fixed { raw: 262144 },
            }),
    {
        StrokeStyle {
            width: Fixed::from_raw(FIXED_ONE),
            cap: LineCap::Butt,
            join: LineJoin::Miter,
            miter_limit: Fixed::from_raw(4 * FIXED_ONE),
        }
    }
}

/// Paint style for drawing operations.
#[derive(Debug, Clone, Copy, PartialEq, Eq, Structural)]
pub struct Paint {
    pub color: Color,
    pub anti_alias: bool,
    pub blend_mode: BlendMode,
    pub stroke: Option<StrokeStyle>,
}

impl Paint {
    /// The default paint: opaque black, anti-aliased, source-over, filling.
    pub fn new() -> (paint: Paint)
        ensures
            paint == (Paint {
                color: Color { r: 0, g: 0, b: 0, a: 255 },
                anti_alias: true,
                blend_mode: BlendMode::SrcOver,
                stroke: None,
            }),
    {
        Paint {
            color: Color::black(),
            anti_alias: true,
            blend_mode: BlendMode::SrcOver,
            stroke: None,
        }
    }

    /// The default paint in another colour.
    pub fn with_color(color: Color) -> (paint: Paint)
        ensures
            paint == (Paint {
                color,
                anti_alias: true,
                blend_mode: BlendMode::SrcOver,
                stroke: None,
            }),
    {
        Paint { color, anti_alias: true, blend_mode: BlendMode::SrcOver, stroke: None }
    }

    pub fn set_color(&mut self, color: Color)
        ensures
            *final(self) == (Paint { color, ..*old(self) }),
    {
        self.color = color;
    }

    pub fn set_anti_alias(&mut self, enabled: bool)
        ensures
            *final(self) == (Paint { anti_alias: enabled, ..*old(self) }),
    {
        self.anti_alias = enabled;
    }

    pub fn set_blend_mode(&mut self, mode: BlendMode)
        ensures
            *final(self) == (Paint { blend_mode: mode, ..*old(self) }),
    {
        self.blend_mode = mode;
    }

    /// Makes the paint stroke with the given style.
    pub fn set_stroke(&mut self, stroke: StrokeStyle)
        ensures
            *final(self) == (Paint { stroke: Some(stroke), ..*old(self) }),
    {
        self.stroke = Some(stroke);
    }

    /// Makes the paint fill.
    pub fn set_fill(&mut self)
        ensures
            *final(self) == (Paint { stroke: None, ..*old(self) }),
    {
        self.stroke = None;
    }

    /// Whether the paint fills, that is, has no stroke style.
    pub fn is_fill(&self) -> (b: bool)
        ensures
            b == self.stroke.is_none(),
    {
        self.stroke.is_none()
    }

    /// Whether the paint strokes, that is, has a stroke style.
    pub fn is_stroke(&self) -> (b: bool)
        ensures
            b == self.stroke.is_some(),
    {
        self.stroke.is_some()
    }
}

impl Default for Paint {
    fn default() -> (paint: Paint)
        ensures
            paint == (Paint {
                color: Color { r: 0, g: 0, b: 0, a: 255 },
                anti_alias: true,
                blend_mode: BlendMode::SrcOver,
                stroke: None,
            }),
    {
        Paint::new()
    }
}

} // verus!
