use sina::fixed::rounded_ratio;
use sina::text::GlyphKey;
use sina::{
    BlendMode, Color, ColorEmojiRenderer, Fixed, GlyphCache, GlyphFormat, LineCap, LineJoin, Paint,
    Point, RasterizedGlyph, Rect, Size, StrokeStyle, TextAlign, Variation, VariationAxis,
};

fn px(value: f64) -> Fixed {
    Fixed::from_raw((value * 65536.0).round() as i32)
}

#[test]
fn test_color_creation() {
    let color = Color::rgba(255, 128, 64, 200);
    assert_eq!(color.r, 255);
    assert_eq!(color.g, 128);
    assert_eq!(color.b, 64);
    assert_eq!(color.a, 200);
}

#[test]
fn test_premultiply() {
    let color = Color::rgba(255, 128, 64, 128);
    let premul = color.premultiply();
    assert_eq!(premul.a, 128);
    assert!(premul.r < color.r);
}

#[test]
fn test_bitmap_renderer() {
    assert!(true);
}

#[test]
fn test_font_basics() {
    assert!(true);
}

#[test]
fn test_text_align() {
    assert_eq!(TextAlign::Left, TextAlign::Left);
    assert_ne!(TextAlign::Left, TextAlign::Center);
}

#[test]
fn test_color_operations() {
    let red = Color::red();
    assert_eq!(red.r, 255);
    assert_eq!(red.g, 0);
    assert_eq!(red.b, 0);
    assert_eq!(red.a, 255);

    let transparent = Color::rgba(100, 100, 100, 128);
    assert_eq!(transparent.a, 128);

    let premul = Color::rgba(255, 255, 255, 128).premultiply();
    assert!(premul.r <= 128);
}

#[test]
fn test_glyph_cache() {
    let cache = GlyphCache::new(2);
    assert_eq!(cache.len(), 0);
    assert!(cache.is_empty());
}

#[test]
fn test_rgba_conversion() {
    let glyph = RasterizedGlyph {
        pixels: vec![255, 128, 0],
        width: 3,
        height: 1,
        bearing_x: px(0.0),
        bearing_y: px(0.0),
        advance: px(10.0),
        format: GlyphFormat::Alpha,
    };

    let color = Color::rgb(255, 0, 0);
    let rgba = glyph.to_rgba(color);

    assert_eq!(rgba.len(), 12);
    assert_eq!(rgba[0..4], [255, 0, 0, 255]);
    assert_eq!(rgba[4..8], [255, 0, 0, 128]);
    assert_eq!(rgba[8..12], [255, 0, 0, 0]);
}

#[test]
fn test_paint_defaults() {
    let paint = Paint::new();
    assert_eq!(paint.color, Color::black());
    assert!(paint.anti_alias);
    assert!(paint.is_fill());
}

#[test]
fn test_stroke_config() {
    let mut paint = Paint::new();
    paint.set_stroke(StrokeStyle { width: px(5.0), ..Default::default() });
    assert!(paint.is_stroke());
}

#[test]
fn test_color_emoji_renderer() {
    let renderer = ColorEmojiRenderer::new();
    assert_eq!(renderer.cache_len(), 0);
}

#[test]
fn test_variation_axis() {
    let axis = VariationAxis {
        tag: "wght".to_string(),
        name: "Weight".to_string(),
        min_value: px(100.0),
        default_value: px(400.0),
        max_value: px(900.0),
    };

    assert_eq!(axis.tag, "wght");
    assert_eq!(axis.default_value, px(400.0));
}

#[test]
fn test_variable_font_manager() {
    let axis = VariationAxis {
        tag: "wght".to_string(),
        name: "Weight".to_string(),
        min_value: px(100.0),
        default_value: px(400.0),
        max_value: px(900.0),
    };

    assert_eq!(axis.tag, "wght");
    assert_eq!(axis.default_value, px(400.0));
}

#[test]
fn test_rect_basics() {
    let rect = Rect::new(px(10.0), px(20.0), px(100.0), px(50.0));
    assert_eq!(rect.left(), px(10.0));
    assert_eq!(rect.right(), px(110.0));
    assert_eq!(rect.top(), px(20.0));
    assert_eq!(rect.bottom(), px(70.0));
}

#[test]
fn test_rect_contains() {
    let rect = Rect::new(px(0.0), px(0.0), px(100.0), px(100.0));
    assert!(rect.contains(Point::new(px(50.0), px(50.0))));
    assert!(!rect.contains(Point::new(px(150.0), px(50.0))));
}

#[test]
fn test_rect_operations() {
    let rect1 = Rect::new(px(0.0), px(0.0), px(100.0), px(100.0));
    let rect2 = Rect::new(px(50.0), px(50.0), px(100.0), px(100.0));

    assert!(rect1.contains(Point::new(px(50.0), px(50.0))));
    assert!(!rect1.contains(Point::new(px(150.0), px(150.0))));

    assert!(rect1.intersects(&rect2));
}

#[test]
fn test_paint_configuration() {
    let mut paint = Paint::with_color(Color::blue());
    paint.set_stroke(StrokeStyle { width: px(5.0), ..Default::default() });
    assert!(paint.stroke.is_some());
    assert_eq!(paint.stroke.as_ref().unwrap().width, px(5.0));

    paint.set_color(Color::red());
    assert_eq!(paint.color.r, 255);
}

#[test]
fn named_colors_have_their_channels() {
    assert_eq!(Color::white(), Color::rgba(255, 255, 255, 255));
    assert_eq!(Color::black(), Color::rgba(0, 0, 0, 255));
    assert_eq!(Color::green(), Color::rgba(0, 255, 0, 255));
    assert_eq!(Color::blue(), Color::rgba(0, 0, 255, 255));
    assert_eq!(Color::transparent(), Color::rgba(0, 0, 0, 0));
    assert_eq!(Color::default(), Color::black());
    assert_eq!(Color::rgb(1, 2, 3), Color::rgba(1, 2, 3, 255));
}

#[test]
fn premultiply_rounds_down() {
    assert_eq!(Color::rgba(255, 128, 64, 128).premultiply(), Color::rgba(128, 64, 32, 128));
    assert_eq!(Color::rgba(200, 100, 1, 255).premultiply(), Color::rgba(200, 100, 1, 255));
    assert_eq!(Color::rgba(200, 100, 1, 0).premultiply(), Color::rgba(0, 0, 0, 0));
    assert_eq!(Color::rgba(254, 3, 255, 254).premultiply(), Color::rgba(253, 2, 254, 254));
}

#[test]
fn paint_setters_change_one_field() {
    let mut paint = Paint::default();
    assert_eq!(paint, Paint::new());
    assert_eq!(paint.blend_mode, BlendMode::default());
    paint.set_anti_alias(false);
    paint.set_blend_mode(BlendMode::Multiply);
    assert_eq!(
        paint,
        Paint {
            color: Color::black(),
            anti_alias: false,
            blend_mode: BlendMode::Multiply,
            stroke: None
        }
    );
    paint.set_stroke(StrokeStyle::default());
    assert!(paint.is_stroke() && !paint.is_fill());
    let stroke = paint.stroke.unwrap();
    assert_eq!(stroke.width, px(1.0));
    assert_eq!(stroke.miter_limit, px(4.0));
    assert_eq!(stroke.cap, LineCap::Butt);
    assert_eq!(stroke.join, LineJoin::Miter);
    paint.set_fill();
    assert!(paint.is_fill() && !paint.is_stroke());
}

#[test]
fn fixed_conversions_round_to_nearest() {
    assert_eq!(Fixed::zero().raw, 0);
    assert_eq!(Fixed::from_int(3).raw, 3 * 65536);
    assert_eq!(Fixed::from_int(-3).raw, -3 * 65536);
    assert_eq!(Fixed::from_int(40000).raw, i32::MAX);
    assert_eq!(Fixed::from_int(-40000).raw, i32::MIN);
    assert_eq!(Fixed::from_ratio(1, 2).raw, 32768);
    assert_eq!(Fixed::from_ratio(-1, 2).raw, -32768);
    assert_eq!(Fixed::from_ratio(12004, 1000), px(12.004));
    assert_eq!(Fixed::from_ratio(1, 3).raw, 21845);
    assert_eq!(Fixed::from_ratio(2, 3).raw, 43691);
    assert_eq!(Fixed::from_ratio(5, 0).raw, i32::MAX);
    assert_eq!(Fixed::from_ratio(-5, 0).raw, i32::MIN);
    assert_eq!(Fixed::from_ratio(0, 0).raw, 0);
    assert_eq!(rounded_ratio(7, 2), 4);
    assert_eq!(rounded_ratio(-7, 2), -4);
    assert_eq!(rounded_ratio(6, 4), 2);
    assert_eq!(rounded_ratio(5, 4), 1);
}

#[test]
fn fixed_rounding_is_away_from_zero_on_ties() {
    assert_eq!(px(0.5).round(), 1);
    assert_eq!(px(-0.5).round(), -1);
    assert_eq!(px(0.49).round(), 0);
    assert_eq!(px(-0.49).round(), 0);
    assert_eq!(px(87.5).round(), 88);
    assert_eq!(px(-87.5).round(), -88);
    assert_eq!(px(12.0).round(), 12);
    assert_eq!(Fixed::from_raw(3).half().raw, 2);
    assert_eq!(Fixed::from_raw(-3).half().raw, -2);
    assert_eq!(px(25.0).half(), px(12.5));
}

#[test]
fn fixed_arithmetic_saturates() {
    assert_eq!(px(1.5).saturating_add(px(2.25)), px(3.75));
    assert_eq!(px(1.5).saturating_sub(px(2.25)), px(-0.75));
    assert_eq!(Fixed::from_raw(i32::MAX).saturating_add(px(1.0)).raw, i32::MAX);
    assert_eq!(Fixed::from_raw(i32::MIN).saturating_sub(px(1.0)).raw, i32::MIN);
    assert_eq!(Fixed::from_raw(i32::MIN).saturating_neg().raw, i32::MAX);
    assert_eq!(px(2.0).saturating_neg(), px(-2.0));
}

#[test]
fn scale_converts_design_units_to_pixels() {
    assert_eq!(Fixed::scale(10, px(16.0), 16), px(10.0));
    assert_eq!(Fixed::scale(1000, px(12.0), 2048), px(5.859375));
    assert_eq!(Fixed::scale(-512, px(24.0), 1024), px(-12.0));
    assert_eq!(Fixed::scale(1, px(1.0), 3).raw, 21845);
    assert_eq!(Fixed::scale(30000, px(30000.0), 16).raw, i32::MAX);
    assert_eq!(Fixed::scale(-30000, px(30000.0), 16).raw, i32::MIN);
    assert_eq!(Fixed::scale(5, px(10.0), 0).raw, i32::MAX);
    assert_eq!(Fixed::scale(-5, px(10.0), 0).raw, i32::MIN);
    assert_eq!(Fixed::scale(0, px(10.0), 0).raw, 0);
}

#[test]
fn sizes_within_a_hundredth_share_a_key() {
    assert_eq!(GlyphKey::new(7, px(12.004)), GlyphKey::new(7, px(12.0)));
    assert_eq!(GlyphKey::new(7, px(12.0)).size_quantized, 1200);
    assert_eq!(GlyphKey::new(7, px(12.004)).size_quantized, 1200);
    assert_ne!(GlyphKey::new(7, px(12.01)), GlyphKey::new(7, px(12.0)));
    assert_eq!(GlyphKey::new(7, px(12.01)).size_quantized, 1201);
    assert_eq!(GlyphKey::new(7, px(12.005)).size_quantized, 1201);
    assert_eq!(GlyphKey::new(7, px(-3.0)).size_quantized, 0);
    assert_eq!(GlyphKey::new(7, px(0.0)).size_quantized, 0);
    assert_ne!(GlyphKey::new(7, px(12.0)), GlyphKey::new(8, px(12.0)));
    assert_eq!(sina::text::cache::quantize_size(Fixed::from_raw(i32::MAX)), 3276800);
}

#[test]
fn rect_edges_and_center() {
    let rect = Rect::from_ltrb(px(10.0), px(20.0), px(110.0), px(70.0));
    assert_eq!(rect, Rect::from_xywh(px(10.0), px(20.0), px(100.0), px(50.0)));
    assert_eq!(rect.center(), Point::new(px(60.0), px(45.0)));
    assert!(rect.contains(Point::new(px(10.0), px(20.0))));
    assert!(rect.contains(Point::new(px(110.0), px(70.0))));
    assert!(!rect.contains(Point::new(px(9.99), px(20.0))));
    let touching = Rect::new(px(110.0), px(20.0), px(5.0), px(5.0));
    assert!(!rect.intersects(&touching));
    assert_eq!(Size::new(px(3.0), px(4.0)).width, px(3.0));
    let wide = Rect::new(px(30000.0), px(0.0), px(30000.0), px(1.0));
    assert_eq!(wide.right().raw, i32::MAX);
}

#[test]
fn variation_holds_tag_and_value() {
    let variation = Variation { tag: "wdth".to_string(), value: px(87.5) };
    assert_eq!(variation.tag, "wdth");
    assert_eq!(variation.value.raw, 5734400);
}

#[test]
fn emoji_renderer_cache_starts_and_ends_empty() {
    let mut renderer = ColorEmojiRenderer::default();
    assert_eq!(renderer.cache_len(), 0);
    renderer.clear_cache();
    assert_eq!(renderer.cache_len(), 0);
}
