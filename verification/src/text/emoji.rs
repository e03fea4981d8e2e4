//! Colour emoji made of coloured layers (the `COLR` and `CPAL` tables).
//!
//! Layered colour glyphs are not read yet: every font counts as having
//! none. Colour bitmaps are handled by the rasterizer adapter.

use crate::color::Color;
use crate::text::font::Font;
use std::collections::HashMap;
use vstd::prelude::*;

verus! {

broadcast use vstd::std_specs::hash::group_hash_axioms;

/// A single colour layer of a layered glyph.
#[derive(Debug, Clone, Copy, PartialEq, Eq, Structural)]
pub struct ColorLayer {
    /// Glyph ID for this layer.
    pub glyph_id: u16,
    /// Colour for this layer.
    pub color: Color,
    /// Palette index (for dynamic palette switching).
    pub palette_index: u16,
}

/// Colour emoji renderer for layered glyphs.
pub struct ColorEmojiRenderer {
    /// Cache of parsed colour layers for glyphs.
    layer_cache: HashMap<u16, Vec<ColorLayer>>,
}

impl ColorEmojiRenderer {
    /// The glyphs whose layers are cached.
    pub closed spec fn cached_glyphs(&self) -> Set<u16> {
        self.layer_cache@.dom()
    }

    /// Creates a new colour emoji renderer, with nothing cached.
    pub fn new() -> (renderer: ColorEmojiRenderer)
        ensures
            renderer.cached_glyphs() == Set::<u16>::empty(),
    {
        let renderer = ColorEmojiRenderer { layer_cache: HashMap::new() };
        assert(renderer.layer_cache@.dom() =~= Set::<u16>::empty());
        renderer
    }

    /// Whether a glyph has colour layers: none has.
    pub fn has_color_layers(&self, _font: &Font, _glyph_id: u16) -> (b: bool)
        ensures
            !b,
    {
        false
    }

    /// The colour layers of a glyph: there are none, and nothing is cached.
    pub fn get_color_layers(&mut self, _font: &Font, _glyph_id: u16, _palette_index: u16) -> (r:
        Option<Vec<ColorLayer>>)
        ensures
            r.is_none(),
            final(self).cached_glyphs() == old(self).cached_glyphs(),
    {
        None
    }

    /// Number of available colour palettes: none.
    pub fn num_palettes(&self, _font: &Font) -> (n: u16)
        ensures
            n == 0,
    {
        0
    }

    /// Number of glyphs whose layers are cached.
    pub fn cache_len(&self) -> (n: usize)
        ensures
            n == self.cached_glyphs().len(),
    {
        self.layer_cache.len()
    }

    /// Clears the layer cache.
    pub fn clear_cache(&mut self)
        ensures
            final(self).cached_glyphs() == Set::<u16>::empty(),
    {
        self.layer_cache.clear();
        assert(self.layer_cache@.dom() =~= Set::<u16>::empty());
    }
}

impl Default for ColorEmojiRenderer {
    fn default() -> (renderer: ColorEmojiRenderer)
        ensures
            renderer.cached_glyphs() == Set::<u16>::empty(),
    {
        ColorEmojiRenderer::new()
    }
}

} // verus!
