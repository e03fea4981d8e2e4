//! Verified core of the Sina 2D rendering engine: colours, paint styles,
//! fixed-point geometry and the text pipeline (shaping, glyph caching and
//! compositing onto a packed-pixel buffer).
//!
//! Fractional quantities (font sizes, pen positions, bearings, advances) are
//! 16.16 fixed-point numbers, see [`Fixed`]; the library holds no
//! floating-point value.

pub mod blend;
pub mod color;
pub mod compositor;
pub mod fixed;
pub mod geometry;
pub mod paint;
pub mod text;

pub use color::Color;
pub use fixed::Fixed;
pub use geometry::{Point, Rect, Size};
pub use paint::{BlendMode, LineCap, LineJoin, Paint, StrokeStyle};
pub use text::{
    BitmapFontRenderer, BitmapGlyph, ColorEmojiRenderer, ColorLayer, Font, FontError, GlyphCache,
    GlyphFormat, RasterizedGlyph, ShapedGlyph, ShapedText, TextAlign, TextLayout,
    VariableFontManager, Variation, VariationAxis,
};
