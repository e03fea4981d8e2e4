//! Text rendering: glyph bitmaps and their cache, layout and compositing.

pub mod bitmap;
pub mod cache;
pub mod emoji;
pub mod face;
pub mod font;
pub mod glyph;
pub mod layout;
pub mod raster;
pub mod render;
pub mod variable;

pub use bitmap::{BitmapFontRenderer, BitmapGlyph};
pub use cache::{CacheModel, GlyphCache, GlyphKey};
pub use emoji::{ColorEmojiRenderer, ColorLayer};
pub use font::{Font, FontError};
pub use glyph::{GlyphBitmap, GlyphFormat, RasterizedGlyph};
pub use layout::{RawGlyph, ShapedGlyph, ShapedText, TextAlign, TextLayout};
pub use raster::{ColorBitmap, OutlineBitmap};
pub use render::{blit, draw_text};
pub use variable::{VariableFontManager, Variation, VariationAxis};
