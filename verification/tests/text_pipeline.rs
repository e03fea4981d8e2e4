use sina::text::cache::GlyphKey;
use sina::text::layout::{layout_text, place_glyphs, shape_glyphs, shape_text};
use sina::text::raster::{
    find_strike, rasterize, rasterize_color, resampling_fits, scale_dimension, size_in_whole_pixels,
};
use sina::text::{blit, draw_text, OutlineBitmap, RawGlyph};
use sina::{
    BitmapFontRenderer, Color, ColorEmojiRenderer, Fixed, Font, FontError, GlyphCache, GlyphFormat,
    Paint, Point, RasterizedGlyph, ShapedGlyph, ShapedText, TextAlign, TextLayout,
    VariableFontManager,
};
use std::cell::Cell;

fn px(value: f64) -> Fixed {
    Fixed::from_raw((value * 65536.0).round() as i32)
}

/// A font of 16 units per em: glyph 1 is `A`, a box 8 wide and 12 high with
/// advance 10; glyph 2 is `B`, a box from 1 to 13 with advance 15; glyph 3
/// is the space with advance 5; glyph 4 is `C`, a 2 by 2 colour image in a
/// strike of 32 pixels per em, with advance 16 and side bearing 2. Its
/// family name is "Sina Test".
fn test_font_bytes() -> Vec<u8> {
    vec![
        0, 1, 0, 0, 0, 9, 0, 128, 0, 3, 0, 16, 99, 109, 97, 112,
        0, 89, 0, 172, 0, 0, 0, 156, 0, 0, 0, 60, 103, 108, 121, 102,
        2, 46, 2, 34, 0, 0, 0, 216, 0, 0, 0, 68, 104, 101, 97, 100,
        95, 32, 61, 25, 0, 0, 1, 28, 0, 0, 0, 54, 104, 104, 101, 97,
        0, 27, 1, 246, 0, 0, 1, 84, 0, 0, 0, 36, 104, 109, 116, 120,
        2, 34, 0, 3, 0, 0, 1, 120, 0, 0, 0, 20, 108, 111, 99, 97,
        0, 51, 0, 68, 0, 0, 1, 140, 0, 0, 0, 12, 109, 97, 120, 112,
        0, 7, 0, 5, 0, 0, 1, 152, 0, 0, 0, 32, 110, 97, 109, 101,
        1, 165, 5, 217, 0, 0, 1, 184, 0, 0, 0, 36, 115, 98, 105, 120,
        174, 152, 197, 93, 0, 0, 1, 220, 0, 0, 0, 127, 0, 0, 0, 1,
        0, 3, 0, 1, 0, 0, 0, 12, 0, 4, 0, 48, 0, 0, 0, 8,
        0, 8, 0, 2, 0, 0, 0, 32, 0, 66, 0, 67, 255, 255, 0, 0,
        0, 32, 0, 65, 0, 67, 255, 255, 255, 227, 255, 192, 255, 193, 0, 1,
        0, 0, 0, 0, 0, 0, 0, 0, 0, 1, 0, 0, 0, 0, 0, 8,
        0, 12, 0, 3, 0, 0, 1, 1, 1, 1, 0, 0, 0, 0, 0, 8,
        0, 0, 0, 0, 0, 12, 0, 0, 255, 244, 0, 1, 0, 1, 0, 0,
        0, 13, 0, 12, 0, 3, 0, 0, 1, 1, 1, 1, 0, 1, 0, 0,
        0, 12, 0, 0, 0, 0, 0, 12, 0, 0, 255, 244, 0, 1, 0, 0,
        0, 1, 0, 0, 0, 0, 0, 0, 95, 15, 60, 245, 0, 0, 0, 16,
        0, 0, 0, 0, 0, 0, 0, 0, 0, 0, 0, 0, 0, 0, 0, 0,
        0, 0, 0, 0, 0, 13, 0, 12, 0, 0, 0, 8, 0, 2, 0, 0,
        0, 0, 0, 0, 0, 1, 0, 0, 0, 12, 255, 252, 0, 0, 1, 244,
        0, 0, 0, 0, 0, 13, 0, 1, 0, 0, 0, 0, 0, 0, 0, 0,
        0, 0, 0, 0, 0, 0, 0, 5, 1, 244, 0, 0, 0, 10, 0, 0,
        0, 15, 0, 1, 0, 5, 0, 0, 0, 16, 0, 2, 0, 0, 0, 0,
        0, 17, 0, 34, 0, 34, 0, 34, 0, 1, 0, 0, 0, 5, 0, 4,
        0, 1, 0, 0, 0, 0, 0, 1, 0, 0, 0, 0, 0, 0, 0, 0,
        0, 0, 0, 0, 0, 0, 0, 0, 0, 0, 0, 1, 0, 18, 0, 3,
        0, 1, 4, 9, 0, 1, 0, 18, 0, 0, 0, 83, 0, 105, 0, 110,
        0, 97, 0, 32, 0, 84, 0, 101, 0, 115, 0, 116, 0, 1, 0, 1,
        0, 0, 0, 1, 0, 0, 0, 12, 0, 32, 0, 72, 0, 0, 0, 28,
        0, 0, 0, 28, 0, 0, 0, 28, 0, 0, 0, 28, 0, 0, 0, 28,
        0, 0, 0, 115, 0, 0, 0, 0, 112, 110, 103, 32, 137, 80, 78, 71,
        13, 10, 26, 10, 0, 0, 0, 13, 73, 72, 68, 82, 0, 0, 0, 2,
        0, 0, 0, 2, 8, 6, 0, 0, 0, 114, 182, 13, 36, 0, 0, 0,
        22, 73, 68, 65, 84, 120, 218, 99, 248, 207, 192, 240, 31, 8, 27, 24,
        128, 52, 144, 205, 192, 0, 0, 58, 220, 5, 124, 125, 11, 107, 43, 0,
        0, 0, 0, 73, 69, 78, 68, 174, 66, 96, 130, 0,
    ]
}

/// A font without glyphs that has a table of variation axes, with the one
/// axis `wght`, and tables of colour bitmaps, which are empty.
fn tables_font_bytes() -> Vec<u8> {
    vec![
        0, 1, 0, 0, 0, 6, 0, 64, 0, 2, 0, 32, 67, 66, 68, 84,
        0, 3, 0, 0, 0, 0, 0, 108, 0, 0, 0, 4, 67, 66, 76, 67,
        0, 3, 0, 0, 0, 0, 0, 112, 0, 0, 0, 8, 102, 118, 97, 114,
        124, 241, 105, 142, 0, 0, 0, 120, 0, 0, 0, 36, 104, 101, 97, 100,
        95, 32, 61, 25, 0, 0, 0, 156, 0, 0, 0, 54, 104, 104, 101, 97,
        0, 27, 1, 246, 0, 0, 0, 212, 0, 0, 0, 36, 109, 97, 120, 112,
        0, 7, 0, 5, 0, 0, 0, 248, 0, 0, 0, 32, 0, 3, 0, 0,
        0, 3, 0, 0, 0, 0, 0, 0, 0, 1, 0, 0, 0, 16, 0, 2,
        0, 1, 0, 20, 0, 0, 0, 4, 119, 103, 104, 116, 0, 100, 0, 0,
        1, 144, 0, 0, 3, 132, 0, 0, 0, 0, 1, 0, 0, 1, 0, 0,
        0, 1, 0, 0, 0, 0, 0, 0, 95, 15, 60, 245, 0, 0, 0, 16,
        0, 0, 0, 0, 0, 0, 0, 0, 0, 0, 0, 0, 0, 0, 0, 0,
        0, 0, 0, 0, 0, 13, 0, 12, 0, 0, 0, 8, 0, 2, 0, 0,
        0, 0, 0, 0, 0, 1, 0, 0, 0, 12, 255, 252, 0, 0, 1, 244,
        0, 0, 0, 0, 0, 13, 0, 1, 0, 0, 0, 0, 0, 0, 0, 0,
        0, 0, 0, 0, 0, 0, 0, 5, 0, 1, 0, 0, 0, 5, 0, 4,
        0, 1, 0, 0, 0, 0, 0, 1, 0, 0, 0, 0, 0, 0, 0, 0,
        0, 0, 0, 0, 0, 0, 0, 0,
    ]
}

/// The first font, but for the image of `C`, which is 5000 pixels wide and
/// one pixel high, each pixel (1, 2, 3, 255).
fn wide_strike_font_bytes() -> Vec<u8> {
    vec![
        0, 1, 0, 0, 0, 9, 0, 128, 0, 3, 0, 16, 99, 109, 97, 112,
        0, 89, 0, 172, 0, 0, 0, 156, 0, 0, 0, 60, 103, 108, 121, 102,
        2, 46, 2, 34, 0, 0, 0, 216, 0, 0, 0, 68, 104, 101, 97, 100,
        95, 32, 61, 25, 0, 0, 1, 28, 0, 0, 0, 54, 104, 104, 101, 97,
        0, 27, 1, 246, 0, 0, 1, 84, 0, 0, 0, 36, 104, 109, 116, 120,
        2, 34, 0, 3, 0, 0, 1, 120, 0, 0, 0, 20, 108, 111, 99, 97,
        0, 51, 0, 68, 0, 0, 1, 140, 0, 0, 0, 12, 109, 97, 120, 112,
        0, 7, 0, 5, 0, 0, 1, 152, 0, 0, 0, 32, 110, 97, 109, 101,
        1, 165, 5, 217, 0, 0, 1, 184, 0, 0, 0, 36, 115, 98, 105, 120,
        139, 197, 1, 100, 0, 0, 1, 220, 0, 0, 0, 151, 0, 0, 0, 1,
        0, 3, 0, 1, 0, 0, 0, 12, 0, 4, 0, 48, 0, 0, 0, 8,
        0, 8, 0, 2, 0, 0, 0, 32, 0, 66, 0, 67, 255, 255, 0, 0,
        0, 32, 0, 65, 0, 67, 255, 255, 255, 227, 255, 192, 255, 193, 0, 1,
        0, 0, 0, 0, 0, 0, 0, 0, 0, 1, 0, 0, 0, 0, 0, 8,
        0, 12, 0, 3, 0, 0, 1, 1, 1, 1, 0, 0, 0, 0, 0, 8,
        0, 0, 0, 0, 0, 12, 0, 0, 255, 244, 0, 1, 0, 1, 0, 0,
        0, 13, 0, 12, 0, 3, 0, 0, 1, 1, 1, 1, 0, 1, 0, 0,
        0, 12, 0, 0, 0, 0, 0, 12, 0, 0, 255, 244, 0, 1, 0, 0,
        0, 1, 0, 0, 0, 0, 0, 0, 95, 15, 60, 245, 0, 0, 0, 16,
        0, 0, 0, 0, 0, 0, 0, 0, 0, 0, 0, 0, 0, 0, 0, 0,
        0, 0, 0, 0, 0, 13, 0, 12, 0, 0, 0, 8, 0, 2, 0, 0,
        0, 0, 0, 0, 0, 1, 0, 0, 0, 12, 255, 252, 0, 0, 1, 244,
        0, 0, 0, 0, 0, 13, 0, 1, 0, 0, 0, 0, 0, 0, 0, 0,
        0, 0, 0, 0, 0, 0, 0, 5, 1, 244, 0, 0, 0, 10, 0, 0,
        0, 15, 0, 1, 0, 5, 0, 0, 0, 16, 0, 2, 0, 0, 0, 0,
        0, 17, 0, 34, 0, 34, 0, 34, 0, 1, 0, 0, 0, 5, 0, 4,
        0, 1, 0, 0, 0, 0, 0, 1, 0, 0, 0, 0, 0, 0, 0, 0,
        0, 0, 0, 0, 0, 0, 0, 0, 0, 0, 0, 1, 0, 18, 0, 3,
        0, 1, 4, 9, 0, 1, 0, 18, 0, 0, 0, 83, 0, 105, 0, 110,
        0, 97, 0, 32, 0, 84, 0, 101, 0, 115, 0, 116, 0, 1, 0, 1,
        0, 0, 0, 1, 0, 0, 0, 12, 0, 32, 0, 72, 0, 0, 0, 28,
        0, 0, 0, 28, 0, 0, 0, 28, 0, 0, 0, 28, 0, 0, 0, 28,
        0, 0, 0, 139, 0, 0, 0, 0, 112, 110, 103, 32, 137, 80, 78, 71,
        13, 10, 26, 10, 0, 0, 0, 13, 73, 72, 68, 82, 0, 0, 19, 136,
        0, 0, 0, 1, 8, 6, 0, 0, 0, 50, 17, 68, 136, 0, 0, 0,
        46, 73, 68, 65, 84, 120, 218, 237, 195, 65, 13, 0, 0, 8, 4, 32,
        245, 250, 103, 214, 24, 126, 96, 163, 122, 178, 170, 170, 170, 170, 170, 170,
        170, 170, 170, 170, 170, 170, 170, 170, 170, 170, 170, 170, 170, 254, 63, 239,
        104, 234, 198, 91, 149, 225, 172, 0, 0, 0, 0, 73, 69, 78, 68, 174,
        66, 96, 130, 0,
    ]
}

fn test_font() -> Font {
    match Font::from_bytes(test_font_bytes()) {
        Ok(font) => font,
        Err(error) => panic!("the test font does not load: {:?}", error),
    }
}

/// An outline rasterizer that draws nothing but tells glyphs and sizes apart.
fn tagged(glyph: u16, size: Fixed) -> OutlineBitmap {
    OutlineBitmap {
        pixels: vec![glyph as u8, (size.raw >> 16) as u8, 255, 255],
        width: 2,
        height: 2,
        xmin: 1,
        ymin: -2,
        advance_width: px(3.5),
    }
}

fn shaped(glyph_index: u16, advance: f64) -> ShapedGlyph {
    ShapedGlyph {
        glyph_index,
        character: 'x',
        x_offset: px(0.0),
        y_offset: px(0.0),
        x_advance: px(advance),
        y_advance: px(0.0),
    }
}

#[test]
fn garbage_is_no_font() {
    assert!(matches!(Font::from_bytes(vec![0u8; 100]), Err(FontError::ParseError(_))));
    assert!(matches!(Font::from_bytes(Vec::new()), Err(FontError::ParseError(_))));
    let mut truncated = test_font_bytes();
    truncated.truncate(40);
    assert!(matches!(Font::from_bytes(truncated), Err(FontError::ParseError(_))));
}

#[test]
fn font_metrics_are_read_from_the_face() {
    let font = test_font();
    assert_eq!(font.units_per_em(), 16);
    assert_eq!(font.ascender(), 12);
    assert_eq!(font.descender(), -4);
    assert_eq!(font.line_gap(), 0);
    assert_eq!(font.line_height(px(16.0)), px(16.0));
    assert_eq!(font.line_height(px(12.0)), px(12.0));
    assert_eq!(font.data(), test_font_bytes().as_slice());
    let copy = font.clone();
    assert_eq!(copy.units_per_em(), 16);
    assert_eq!(copy.data(), font.data());
}

#[test]
fn characters_map_to_glyphs() {
    let font = test_font();
    assert_eq!(font.glyph_index('A'), Some(1));
    assert_eq!(font.glyph_index('B'), Some(2));
    assert_eq!(font.glyph_index(' '), Some(3));
    assert_eq!(font.glyph_index('C'), Some(4));
    assert_eq!(font.glyph_index('Z'), None);
}

#[test]
fn glyph_advance_is_scaled_to_the_size() {
    let font = test_font();
    assert_eq!(font.glyph_advance(1, px(16.0)), px(10.0));
    assert_eq!(font.glyph_advance(2, px(32.0)), px(30.0));
    assert_eq!(font.glyph_advance(3, px(8.0)), px(2.5));
    assert_eq!(font.glyph_advance(200, px(16.0)), px(0.0));
}

#[test]
fn family_name_is_the_first_family_record() {
    let font = test_font();
    assert_eq!(font.family_name(), Some("Sina Test".to_string()));
}

#[test]
fn table_queries_see_the_tables() {
    let font = test_font();
    assert!(!BitmapFontRenderer::has_bitmaps(&font));
    assert!(BitmapFontRenderer::available_sizes(&font).is_empty());
    assert!(BitmapFontRenderer::get_bitmap(&font, 4, 32).is_none());
    assert!(!VariableFontManager::is_variable(&font));
    assert!(VariableFontManager::instances(&font).is_empty());
    let mut emoji = ColorEmojiRenderer::new();
    assert!(!emoji.has_color_layers(&font, 4));
    assert!(emoji.get_color_layers(&font, 4, 0).is_none());
    assert_eq!(emoji.num_palettes(&font), 0);
    assert_eq!(emoji.cache_len(), 0);
}

#[test]
fn table_queries_find_the_tables() {
    let font = match Font::from_bytes(tables_font_bytes()) {
        Ok(font) => font,
        Err(error) => panic!("the font does not load: {:?}", error),
    };
    assert!(BitmapFontRenderer::has_bitmaps(&font));
    assert!(VariableFontManager::is_variable(&font));
    assert_eq!(font.family_name(), None);
    assert_eq!(font.glyph_index('A'), None);
    assert_eq!(font.glyph_advance(1, px(16.0)), px(0.0));
    assert!(find_strike(&font, 1, px(16.0)).is_none());
    assert!(shape_text(&font, px(16.0), "").glyphs.is_empty());
}

#[test]
fn centered_text_starts_half_its_width_back() {
    let text = ShapedText {
        glyphs: vec![shaped(1, 10.0), shaped(2, 15.0)],
        width: px(25.0),
        height: px(16.0),
    };
    let placed = place_glyphs(&text, Point::new(px(100.0), px(40.0)), TextAlign::Center);
    assert_eq!(placed.len(), 2);
    assert_eq!(placed[0].0, Point::new(px(87.5), px(40.0)));
    assert_eq!(placed[1].0, Point::new(px(97.5), px(40.0)));
    assert_eq!(placed[0].1.glyph_index, 1);
    assert_eq!(placed[1].1.glyph_index, 2);
}

#[test]
fn alignment_moves_the_start() {
    let text = ShapedText {
        glyphs: vec![shaped(1, 10.0), shaped(2, 15.0)],
        width: px(25.0),
        height: px(16.0),
    };
    let left = place_glyphs(&text, Point::new(px(100.0), px(40.0)), TextAlign::Left);
    assert_eq!(left[0].0.x, px(100.0));
    assert_eq!(left[1].0.x, px(110.0));
    let right = place_glyphs(&text, Point::new(px(100.0), px(40.0)), TextAlign::Right);
    assert_eq!(right[0].0.x, px(75.0));
    assert_eq!(right[1].0.x, px(85.0));
    let none = ShapedText { glyphs: Vec::new(), width: px(0.0), height: px(0.0) };
    assert!(place_glyphs(&none, Point::new(px(1.0), px(2.0)), TextAlign::Center).is_empty());
}

#[test]
fn offsets_move_a_glyph_but_not_the_pen() {
    let mut first = shaped(1, 10.0);
    first.x_offset = px(1.25);
    first.y_offset = px(-3.0);
    let text = ShapedText { glyphs: vec![first, shaped(2, 15.0)], width: px(25.0), height: px(16.0) };
    let placed = place_glyphs(&text, Point::new(px(0.0), px(20.0)), TextAlign::Left);
    assert_eq!(placed[0].0, Point::new(px(1.25), px(17.0)));
    assert_eq!(placed[1].0, Point::new(px(10.0), px(20.0)));
}

#[test]
fn shaper_glyphs_are_scaled_and_measured() {
    let raw = vec![
        RawGlyph { glyph_id: 5, cluster: 0, x_advance: 1000, y_advance: 0, x_offset: 0, y_offset: 0 },
        RawGlyph { glyph_id: 6, cluster: 1, x_advance: 500, y_advance: 0, x_offset: -100, y_offset: 50 },
        RawGlyph { glyph_id: 7, cluster: 9, x_advance: 250, y_advance: 0, x_offset: 0, y_offset: 0 },
    ];
    let text = shape_glyphs(&raw, "héz", px(20.0), 1000, px(24.0));
    assert_eq!(text.glyphs.len(), 3);
    assert_eq!(text.glyphs[0], ShapedGlyph {
        glyph_index: 5,
        character: 'h',
        x_offset: px(0.0),
        y_offset: px(0.0),
        x_advance: px(20.0),
        y_advance: px(0.0),
    });
    assert_eq!(text.glyphs[1].character, 'é');
    assert_eq!(text.glyphs[1].x_offset, px(-2.0));
    assert_eq!(text.glyphs[1].y_offset, px(1.0));
    assert_eq!(text.glyphs[1].x_advance, px(10.0));
    assert_eq!(text.glyphs[2].character, ' ');
    assert_eq!(text.width, px(35.0));
    assert_eq!(text.height, px(24.0));
    let empty = shape_glyphs(&Vec::new(), "", px(20.0), 1000, px(24.0));
    assert!(empty.glyphs.is_empty());
    assert_eq!(empty.width, px(0.0));
    assert_eq!(empty.height, px(0.0));
}

#[test]
fn text_is_shaped_by_the_shaper() {
    let font = test_font();
    let text = shape_text(&font, px(16.0), "AB");
    assert_eq!(text.glyphs.len(), 2);
    assert_eq!(text.glyphs[0].glyph_index, 1);
    assert_eq!(text.glyphs[0].character, 'A');
    assert_eq!(text.glyphs[0].x_advance, px(10.0));
    assert_eq!(text.glyphs[1].glyph_index, 2);
    assert_eq!(text.glyphs[1].character, 'B');
    assert_eq!(text.glyphs[1].x_advance, px(15.0));
    assert_eq!(text.width, px(25.0));
    assert_eq!(text.height, px(16.0));
    let empty = shape_text(&font, px(16.0), "");
    assert!(empty.glyphs.is_empty());
    assert_eq!(empty.width, px(0.0));
    assert_eq!(empty.height, px(0.0));
}

#[test]
fn layout_centers_shaped_text() {
    let layout = TextLayout::new(test_font(), px(16.0));
    assert_eq!(layout.font_size(), px(16.0));
    assert_eq!(layout.font().units_per_em(), 16);
    let placed = layout.layout("AB", Point::new(px(100.0), px(50.0)), TextAlign::Center);
    assert_eq!(placed.len(), 2);
    assert_eq!(placed[0].0, Point::new(px(87.5), px(50.0)));
    assert_eq!(placed[1].0, Point::new(px(97.5), px(50.0)));
    assert_eq!(layout.measure("AB"), (px(25.0), px(16.0)));
    assert_eq!(layout.measure("A B"), (px(30.0), px(16.0)));
    assert_eq!(layout.shape("BA").glyphs[0].glyph_index, 2);
    let same = layout_text(layout.font(), px(16.0), "AB", Point::new(px(100.0), px(50.0)), TextAlign::Center);
    assert_eq!(same, placed);
}

#[test]
fn second_request_is_served_from_the_cache() {
    let font = test_font();
    let calls = Cell::new(0);
    let outline = |glyph: u16, size: Fixed| {
        calls.set(calls.get() + 1);
        tagged(glyph, size)
    };
    let mut cache = GlyphCache::new(8);
    let first = cache.get_or_rasterize_indexed(&font, 1, px(12.0), &outline).unwrap();
    assert_eq!(calls.get(), 1);
    assert_eq!(cache.len(), 1);
    let second = cache.get_or_rasterize_indexed(&font, 1, px(12.0), &outline).unwrap();
    assert_eq!(calls.get(), 1);
    assert_eq!(cache.len(), 1);
    assert_eq!(first.pixels, second.pixels);
    assert_eq!(first.width, second.width);
    assert_eq!(first.height, second.height);
    assert_eq!(first.pixels, vec![1, 12, 255, 255]);
    assert_eq!(first.format, GlyphFormat::Alpha);
    assert_eq!((first.width, first.height), (2, 2));
    assert_eq!(first.bearing_x, px(1.0));
    assert_eq!(first.bearing_y, px(-2.0));
    assert_eq!(first.advance, px(3.5));
}

#[test]
fn sizes_within_a_hundredth_hit_the_same_entry() {
    let font = test_font();
    let calls = Cell::new(0);
    let outline = |glyph: u16, size: Fixed| {
        calls.set(calls.get() + 1);
        tagged(glyph, size)
    };
    let mut cache = GlyphCache::new(8);
    assert!(cache.get_or_rasterize_indexed(&font, 1, px(12.004), &outline).is_some());
    assert!(cache.get_or_rasterize_indexed(&font, 1, px(12.0), &outline).is_some());
    assert_eq!((calls.get(), cache.len()), (1, 1));
    assert!(cache.get_or_rasterize_indexed(&font, 1, px(12.01), &outline).is_some());
    assert_eq!((calls.get(), cache.len()), (2, 2));
    assert!(cache.get(GlyphKey::new(1, px(12.0))).is_some());
    assert!(cache.get(GlyphKey::new(1, px(12.01))).is_some());
    assert!(cache.get(GlyphKey::new(1, px(12.02))).is_none());
}

#[test]
fn cache_never_exceeds_its_capacity() {
    let font = test_font();
    let mut cache = GlyphCache::new(3);
    assert_eq!(cache.max_size(), 3);
    for glyph in 0..5u16 {
        for size in 10..15 {
            assert!(cache.get_or_rasterize_indexed(&font, glyph, px(size as f64), &tagged).is_some());
            assert!(cache.len() <= 3);
        }
    }
    for capacity in 0..4usize {
        let mut small = GlyphCache::new(capacity);
        for glyph in 0..5u16 {
            assert!(small.get_or_rasterize_indexed(&font, glyph, px(16.0), &tagged).is_some());
            assert!(small.get_or_rasterize(&font, 'C', px(24.0 + glyph as f64), &tagged).is_some());
            assert!(small.len() <= capacity);
        }
        assert_eq!(small.len(), capacity);
    }
    assert_eq!(cache.len(), 3);
    cache.clear();
    assert_eq!(cache.len(), 0);
    assert!(cache.is_empty());
    assert_eq!(cache.max_size(), 3);
    assert_eq!(GlyphCache::default().max_size(), 1000);
}

#[test]
fn full_cache_evicts_the_oldest_entry() {
    let font = test_font();
    let calls = Cell::new(0);
    let outline = |glyph: u16, size: Fixed| {
        calls.set(calls.get() + 1);
        tagged(glyph, size)
    };
    let mut cache = GlyphCache::new(2);
    for glyph in [1u16, 2, 3] {
        assert!(cache.get_or_rasterize_indexed(&font, glyph, px(12.0), &outline).is_some());
    }
    assert_eq!((calls.get(), cache.len()), (3, 2));
    assert!(cache.get(GlyphKey::new(1, px(12.0))).is_none());
    assert!(cache.get(GlyphKey::new(2, px(12.0))).is_some());
    assert!(cache.get_or_rasterize_indexed(&font, 3, px(12.0), &outline).is_some());
    assert!(cache.get_or_rasterize_indexed(&font, 2, px(12.0), &outline).is_some());
    assert_eq!(calls.get(), 3);
    // A hit does not renew an entry: 2 is still the oldest and leaves for 1.
    assert!(cache.get_or_rasterize_indexed(&font, 1, px(12.0), &outline).is_some());
    assert_eq!((calls.get(), cache.len()), (4, 2));
    assert!(cache.get(GlyphKey::new(2, px(12.0))).is_none());
    assert!(cache.get(GlyphKey::new(3, px(12.0))).is_some());
    assert!(cache.get(GlyphKey::new(1, px(12.0))).is_some());
}

#[test]
fn cache_without_capacity_keeps_nothing() {
    let font = test_font();
    let calls = Cell::new(0);
    let outline = |glyph: u16, size: Fixed| {
        calls.set(calls.get() + 1);
        tagged(glyph, size)
    };
    let mut cache = GlyphCache::new(0);
    let first = cache.get_or_rasterize_indexed(&font, 1, px(12.0), &outline).unwrap();
    assert_eq!(first.pixels, vec![1, 12, 255, 255]);
    assert_eq!((calls.get(), cache.len()), (1, 0));
    let again = cache.get_or_rasterize_indexed(&font, 1, px(12.0), &outline).unwrap();
    assert_eq!(again.pixels, first.pixels);
    assert_eq!((calls.get(), cache.len()), (2, 0));
    assert!(cache.get_or_rasterize(&font, 'B', px(12.0), &outline).is_some());
    assert!(cache.get_or_rasterize(&font, 'C', px(32.0), &outline).is_some());
    assert_eq!((calls.get(), cache.len()), (3, 0));
    assert!(cache.is_empty());
    assert!(cache.get(GlyphKey::new(1, px(12.0))).is_none());
    assert!(cache.get(GlyphKey::new(2, px(12.0))).is_none());
    cache.insert(GlyphKey::new(1, px(12.0)), RasterizedGlyph::from_outline(tagged(1, px(12.0))));
    assert_eq!(cache.len(), 0);
    assert!(cache.get(GlyphKey::new(1, px(12.0))).is_none());
    let mut buffer = vec![0u32; 16];
    let glyphs = vec![(Point::new(px(1.0), px(3.0)), shaped(1, 4.0))];
    blit(&mut buffer, 4, 4, &glyphs, Color::white(), &font, px(12.0), &mut cache, &outline);
    assert_eq!(cache.len(), 0);
    assert_ne!(buffer, vec![0u32; 16]);
}

#[test]
fn cache_of_one_keeps_the_last_entry() {
    let font = test_font();
    let mut cache = GlyphCache::new(1);
    assert!(cache.get_or_rasterize_indexed(&font, 1, px(12.0), &tagged).is_some());
    assert_eq!(cache.len(), 1);
    assert!(cache.get_or_rasterize_indexed(&font, 2, px(12.0), &tagged).is_some());
    assert_eq!(cache.len(), 1);
    assert!(cache.get(GlyphKey::new(1, px(12.0))).is_none());
    assert!(cache.get(GlyphKey::new(2, px(12.0))).is_some());
}

#[test]
fn insert_and_get_keep_the_glyph() {
    let mut cache = GlyphCache::new(2);
    let key = GlyphKey::new(9, px(20.0));
    assert!(cache.get(key).is_none());
    cache.insert(key, RasterizedGlyph::from_outline(tagged(9, px(20.0))));
    let found = cache.get(key).unwrap();
    assert_eq!(found.pixels, vec![9, 20, 255, 255]);
    assert_eq!(found.bearing_x, px(1.0));
}

#[test]
fn character_without_glyph_is_not_rasterized() {
    let font = test_font();
    let calls = Cell::new(0);
    let outline = |glyph: u16, size: Fixed| {
        calls.set(calls.get() + 1);
        tagged(glyph, size)
    };
    let mut cache = GlyphCache::new(4);
    let missing = cache.get_or_rasterize(&font, 'Z', px(12.0), &outline).unwrap();
    assert_eq!((missing.width, missing.height), (0, 0));
    assert_eq!(missing.advance, px(0.0));
    assert!(missing.pixels.is_empty());
    assert!(!missing.is_drawable());
    assert_eq!((calls.get(), cache.len()), (0, 0));
    let glyph = cache.get_or_rasterize(&font, 'B', px(12.0), &outline).unwrap();
    assert_eq!(glyph.pixels, vec![2, 12, 255, 255]);
    assert_eq!((calls.get(), cache.len()), (1, 1));
    assert!(cache.get_or_rasterize_indexed(&font, 2, px(12.0), &outline).is_some());
    assert_eq!(calls.get(), 1);
}

#[test]
fn strike_is_found_for_the_colour_glyph_only() {
    let font = test_font();
    let strike = find_strike(&font, 4, px(20.0)).unwrap();
    assert_eq!(strike.pixels_per_em, 32);
    assert_eq!(&strike.data[0..8], &[0x89, b'P', b'N', b'G', 13, 10, 26, 10]);
    assert_eq!(strike.data.len(), 79);
    assert!(find_strike(&font, 1, px(20.0)).is_none());
    assert!(find_strike(&font, 77, px(20.0)).is_none());
    assert_eq!(size_in_whole_pixels(px(20.9)), 20);
    assert_eq!(size_in_whole_pixels(px(-1.0)), 0);
    assert_eq!(scale_dimension(2, px(64.0), 32), Some(4));
    assert_eq!(scale_dimension(3, px(16.0), 32), Some(2));
    assert_eq!(scale_dimension(136, px(24.0), 109), Some(30));
    assert_eq!(scale_dimension(4096, px(33.0), 32), Some(4224));
    assert_eq!(scale_dimension(136, px(4000.0), 128), Some(4250));
    assert_eq!(scale_dimension(2, px(0.0), 32), None);
    assert_eq!(scale_dimension(2, px(16.0), 0), None);
    assert_eq!(scale_dimension(u32::MAX, px(32.0), 16), None);
    assert_eq!(scale_dimension(u32::MAX, px(16.0), 16), Some(u32::MAX));
    assert!(resampling_fits(2, 4, 4));
    assert!(resampling_fits(136, 4250, 4250));
    assert!(resampling_fits(1, 0, u32::MAX));
    assert!(!resampling_fits(u32::MAX, u32::MAX, u32::MAX));
    assert!(!resampling_fits(1, u32::MAX, u32::MAX));
}

#[test]
fn colour_glyph_comes_from_the_strike() {
    let font = test_font();
    let glyph = rasterize_color(&font, 4, px(32.0)).unwrap();
    assert_eq!(glyph.format, GlyphFormat::Rgba);
    assert_eq!((glyph.width, glyph.height), (2, 2));
    assert_eq!(glyph.pixels, vec![255, 0, 0, 255, 0, 255, 0, 128, 0, 0, 255, 255, 0, 0, 0, 0]);
    assert_eq!(glyph.bearing_x, px(4.0));
    assert_eq!(glyph.bearing_y, px(0.0));
    assert_eq!(glyph.advance, px(32.0));
    let larger = rasterize_color(&font, 4, px(64.0)).unwrap();
    assert_eq!((larger.width, larger.height), (4, 4));
    assert_eq!(larger.pixels.len(), 64);
    assert_eq!(larger.advance, px(64.0));
    let between = rasterize_color(&font, 4, px(40.0)).unwrap();
    assert_eq!((between.width, between.height), (3, 3));
    assert_eq!(between.pixels.len(), 36);
    assert!(between.is_well_formed());
    let gone = rasterize_color(&font, 4, px(7.0)).unwrap();
    assert_eq!((gone.width, gone.height), (0, 0));
    assert_eq!(gone.format, GlyphFormat::Rgba);
    assert!(gone.pixels.is_empty());
    assert_eq!(gone.advance, px(7.0));
    assert!(rasterize_color(&font, 1, px(32.0)).is_none());
    assert!(rasterize_color(&font, 4, px(0.0)).is_none());
    assert!(rasterize_color(&font, 4, px(-5.0)).is_none());
}

#[test]
fn strike_that_does_not_decode_falls_back_to_the_outline() {
    let mut bytes = test_font_bytes();
    let signature = [0x89u8, b'P', b'N', b'G'];
    let at = bytes.windows(4).position(|window| window == signature).unwrap();
    bytes[at] = 0;
    let font = match Font::from_bytes(bytes) {
        Ok(font) => font,
        Err(error) => panic!("the font does not load: {:?}", error),
    };
    assert!(find_strike(&font, 4, px(32.0)).is_some());
    assert!(rasterize_color(&font, 4, px(32.0)).is_none());
    let calls = Cell::new(0);
    let outline = |glyph: u16, size: Fixed| {
        calls.set(calls.get() + 1);
        tagged(glyph, size)
    };
    let glyph = rasterize(&font, 4, px(32.0), &outline);
    assert_eq!(glyph.format, GlyphFormat::Alpha);
    assert_eq!(glyph.pixels, vec![4, 32, 255, 255]);
    assert_eq!(calls.get(), 1);
}

#[test]
fn strike_of_any_size_is_used() {
    let font = match Font::from_bytes(wide_strike_font_bytes()) {
        Ok(font) => font,
        Err(error) => panic!("the font does not load: {:?}", error),
    };
    let calls = Cell::new(0);
    let outline = |glyph: u16, size: Fixed| {
        calls.set(calls.get() + 1);
        tagged(glyph, size)
    };
    let glyph = rasterize(&font, 4, px(32.0), &outline);
    assert_eq!(calls.get(), 0);
    assert_eq!(glyph.format, GlyphFormat::Rgba);
    assert_eq!((glyph.width, glyph.height), (5000, 1));
    assert_eq!(glyph.pixels.len(), 20000);
    assert_eq!(&glyph.pixels[0..4], &[1, 2, 3, 255]);
    assert_eq!(&glyph.pixels[19996..20000], &[1, 2, 3, 255]);
    let wider = rasterize(&font, 4, px(40.0), &outline);
    assert_eq!((wider.width, wider.height), (6250, 1));
    assert_eq!(wider.pixels.len(), 25000);
    assert_eq!(wider.format, GlyphFormat::Rgba);
    assert_eq!(calls.get(), 0);
}

#[test]
fn glyph_that_the_font_does_not_have_is_empty() {
    let font = test_font();
    let calls = Cell::new(0);
    let outline = |glyph: u16, size: Fixed| {
        calls.set(calls.get() + 1);
        tagged(glyph, size)
    };
    for glyph_index in [5u16, 6, 200, u16::MAX] {
        let glyph = rasterize(&font, glyph_index, px(16.0), &outline);
        assert_eq!((glyph.width, glyph.height), (0, 0));
        assert!(glyph.pixels.is_empty());
        assert_eq!(glyph.advance, px(0.0));
    }
    assert_eq!(calls.get(), 0);
    let last = rasterize(&font, 4, px(0.0), &outline);
    assert_eq!(last.pixels, vec![4, 0, 255, 255]);
    assert_eq!(calls.get(), 1);
    let mut cache = GlyphCache::new(4);
    let cached = cache.get_or_rasterize_indexed(&font, 9, px(16.0), &outline).unwrap();
    assert!(cached.pixels.is_empty());
    assert_eq!((calls.get(), cache.len()), (1, 1));
    let mut buffer = vec![5u32; 16];
    let glyphs = vec![(Point::new(px(1.0), px(3.0)), shaped(9, 4.0))];
    blit(&mut buffer, 4, 4, &glyphs, Color::white(), &font, px(16.0), &mut cache, &outline);
    assert_eq!(buffer, vec![5u32; 16]);
}

#[test]
fn mask_out_of_shape_degrades_to_the_empty_glyph() {
    let font = test_font();
    let short = |_glyph: u16, _size: Fixed| OutlineBitmap {
        pixels: vec![255; 3],
        width: 2,
        height: 2,
        xmin: 1,
        ymin: 1,
        advance_width: px(2.0),
    };
    let glyph = rasterize(&font, 1, px(16.0), &short);
    assert_eq!((glyph.width, glyph.height), (0, 0));
    assert!(glyph.pixels.is_empty());
    assert_eq!(glyph.bearing_x, px(0.0));
    assert_eq!(glyph.advance, px(0.0));
    let long = OutlineBitmap {
        pixels: vec![255; 5],
        width: 2,
        height: 2,
        xmin: 0,
        ymin: 0,
        advance_width: px(2.0),
    };
    assert!(RasterizedGlyph::from_outline(long).pixels.is_empty());
    let huge = OutlineBitmap {
        pixels: vec![255; 4],
        width: usize::MAX,
        height: usize::MAX,
        xmin: 0,
        ymin: 0,
        advance_width: px(2.0),
    };
    assert!(RasterizedGlyph::from_outline(huge).pixels.is_empty());
    let fine = RasterizedGlyph::from_outline(tagged(7, px(3.0)));
    assert!(fine.is_well_formed());
    assert_eq!(fine.pixels, vec![7, 3, 255, 255]);
}

#[test]
fn cache_stores_no_glyph_out_of_shape() {
    let mut cache = GlyphCache::new(4);
    let key = GlyphKey::new(1, px(16.0));
    let broken = RasterizedGlyph {
        pixels: Vec::new(),
        format: GlyphFormat::Alpha,
        width: 2,
        height: 2,
        bearing_x: px(1.0),
        bearing_y: px(1.0),
        advance: px(2.0),
    };
    assert!(!broken.is_well_formed());
    cache.insert(key, broken);
    let found = cache.get(key).unwrap();
    assert_eq!((found.width, found.height), (0, 0));
    assert!(found.pixels.is_empty());
    assert!(found.is_well_formed());
    let colour = RasterizedGlyph {
        pixels: vec![9; 8],
        format: GlyphFormat::Rgba,
        width: 2,
        height: 1,
        bearing_x: px(1.0),
        bearing_y: px(0.0),
        advance: px(2.0),
    };
    assert!(colour.is_well_formed());
    cache.insert(key, colour);
    let replaced = cache.get(key).unwrap();
    assert_eq!((replaced.width, replaced.height, replaced.pixels.len()), (2, 1, 8));
    assert_eq!(cache.len(), 1);
    let font = test_font();
    let hit = cache.get_or_rasterize_indexed(&font, 1, px(16.0), &tagged).unwrap();
    assert_eq!(hit.pixels, vec![9; 8]);
}

#[test]
fn names_are_looked_up_by_their_id() {
    let font = test_font();
    assert_eq!(font.name(1), Some("Sina Test".to_string()));
    assert_eq!(font.name(4), None);
    assert_eq!(VariableFontManager::axis_name(&font, 1), "Sina Test");
    assert_eq!(VariableFontManager::axis_name(&font, 256), "Unknown");
}

#[test]
fn adapter_prefers_the_colour_bitmap() {
    let font = test_font();
    let calls = Cell::new(0);
    let outline = |glyph: u16, size: Fixed| {
        calls.set(calls.get() + 1);
        tagged(glyph, size)
    };
    let colour = rasterize(&font, 4, px(32.0), &outline);
    assert_eq!(colour.format, GlyphFormat::Rgba);
    assert_eq!(calls.get(), 0);
    let plain = rasterize(&font, 1, px(32.0), &outline);
    assert_eq!(plain.format, GlyphFormat::Alpha);
    assert_eq!(plain.pixels, vec![1, 32, 255, 255]);
    assert_eq!(calls.get(), 1);
    let mut cache = GlyphCache::new(4);
    let cached = cache.get_or_rasterize(&font, 'C', px(32.0), &outline).unwrap();
    assert_eq!(cached.pixels, colour.pixels);
    assert_eq!(calls.get(), 1);
}

#[test]
fn blit_draws_each_glyph_at_its_position() {
    let font = test_font();
    let outline = |_glyph: u16, _size: Fixed| OutlineBitmap {
        pixels: vec![255],
        width: 1,
        height: 1,
        xmin: 0,
        ymin: 0,
        advance_width: px(1.0),
    };
    let glyphs = vec![
        (Point::new(px(0.0), px(1.0)), shaped(1, 1.0)),
        (Point::new(px(2.0), px(2.0)), shaped(2, 1.0)),
        (Point::new(px(9.0), px(9.0)), shaped(1, 1.0)),
    ];
    let mut buffer = vec![0u32; 9];
    let mut cache = GlyphCache::new(4);
    blit(&mut buffer, 3, 3, &glyphs, Color::rgb(0, 0, 255), &font, px(12.0), &mut cache, &outline);
    let mut expected = vec![0u32; 9];
    expected[0] = 0xFF0000FF;
    expected[1 * 3 + 2] = 0xFF0000FF;
    assert_eq!(buffer, expected);
    assert_eq!(cache.len(), 2);
}

#[test]
fn text_is_drawn_with_the_outline_rasterizer() {
    let font = test_font();
    let outlines = fontdue::Font::from_bytes(test_font_bytes(), fontdue::FontSettings::default()).unwrap();
    let outline = |glyph: u16, size: Fixed| {
        let (metrics, pixels) = outlines.rasterize_indexed(glyph, size.raw as f32 / 65536.0);
        OutlineBitmap {
            pixels,
            width: metrics.width,
            height: metrics.height,
            xmin: metrics.xmin,
            ymin: metrics.ymin,
            advance_width: px(metrics.advance_width as f64),
        }
    };
    let mut buffer = vec![0u32; 32 * 16];
    let mut cache = GlyphCache::default();
    let paint = Paint::with_color(Color::red());
    draw_text(&mut buffer, 32, 16, "A B", Point::new(px(2.0), px(14.0)), &font, px(16.0), &paint, &mut cache, &outline);
    let at = |x: usize, y: usize| buffer[y * 32 + x];
    // `A` covers columns 2 to 9 and rows 2 to 13.
    assert_eq!(at(5, 8), 0xFFFF0000);
    assert_eq!(at(2, 2), 0xFFFF0000);
    assert_eq!(at(9, 13), 0xFFFF0000);
    assert_eq!(at(1, 8), 0);
    assert_eq!(at(5, 1), 0);
    assert_eq!(at(5, 14), 0);
    // The pen moves by 10 and by 5: `B` starts at 17, its box one further.
    assert_eq!(at(11, 8), 0);
    assert_eq!(at(17, 8), 0);
    assert_eq!(at(18, 8), 0xFFFF0000);
    assert_eq!(at(29, 8), 0xFFFF0000);
    assert_eq!(at(30, 8), 0);
    assert_eq!(cache.len(), 3);

    let before = buffer.clone();
    draw_text(&mut buffer, 32, 16, "", Point::new(px(2.0), px(14.0)), &font, px(16.0), &paint, &mut cache, &outline);
    assert_eq!(buffer, before);
    draw_text(&mut buffer, 32, 16, "AB", Point::new(px(200.0), px(14.0)), &font, px(16.0), &paint, &mut cache, &outline);
    assert_eq!(buffer, before);
}

#[test]
fn colour_glyph_is_drawn_with_its_own_colours() {
    let font = test_font();
    let mut buffer = vec![0xFF646464u32; 8 * 4];
    let mut cache = GlyphCache::default();
    let paint = Paint::with_color(Color::red());
    draw_text(&mut buffer, 8, 4, "C", Point::new(px(0.0), px(3.0)), &font, px(32.0), &paint, &mut cache, &tagged);
    // Side bearing 2 units at twice the unit: the bitmap starts in column 4, row 1.
    assert_eq!(buffer[1 * 8 + 4], 0xFFFF0000);
    assert_eq!(buffer[1 * 8 + 5], 0xFF31B131);
    assert_eq!(buffer[2 * 8 + 4], 0xFF0000FF);
    assert_eq!(buffer[2 * 8 + 5], 0xFF646464);
    assert_eq!(buffer[1 * 8 + 3], 0xFF646464);
    assert_eq!(buffer[0], 0xFF646464);
}
