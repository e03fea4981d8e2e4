//! Text layout and shaping.
//!
//! Shaping, the step from a string to glyphs with advances and offsets in
//! font design units, is done by the `rustybuzz` crate. What follows it is
//! done here: the conversion to pixels, the text's extent, alignment and the
//! walk that places each glyph.

use crate::fixed::{clamp_i32, div_round, lemma_div_round_error, Fixed};
use crate::geometry::Point;
use crate::text::face::{face_metrics_of, FaceMetrics};
use crate::text::font::{line_height_of, Font};
use vstd::prelude::*;
use vstd::string::StrSliceExecFns;

verus! {

/// Text alignment options.
#[derive(Debug, Clone, Copy, PartialEq, Eq, Structural)]
pub enum TextAlign {
    Left,
    Center,
    Right,
}

/// A glyph as the shaper returns it: advances and offsets are in font
/// design units, and `cluster` is the place in the text that the glyph
/// came from.
#[derive(Debug, Clone, Copy, PartialEq, Eq, Structural)]
pub struct RawGlyph {
    pub glyph_id: u16,
    pub cluster: u32,
    pub x_advance: i32,
    pub y_advance: i32,
    pub x_offset: i32,
    pub y_offset: i32,
}

/// A positioned glyph after shaping, in pixels.
#[derive(Debug, Clone, Copy, PartialEq, Eq, Structural)]
pub struct ShapedGlyph {
    pub glyph_index: u16,
    pub character: char,
    pub x_offset: Fixed,
    pub y_offset: Fixed,
    pub x_advance: Fixed,
    pub y_advance: Fixed,
}

/// Result of text shaping.
pub struct ShapedText {
    pub glyphs: Vec<ShapedGlyph>,
    pub width: Fixed,
    pub height: Fixed,
}

/// Text layout engine.
pub struct TextLayout {
    font: Font,
    font_size: Fixed,
}

/// The glyphs that the shaper returns for a text set in the font that
/// `data` holds, in the order in which they are drawn; `None` where `data`
/// holds no face.
pub uninterp spec fn shaping_of(data: Seq<u8>, text: Seq<char>) -> Option<Seq<RawGlyph>>;

/// Calls `rustybuzz::shape` on the face with index 0 of `data`, with no
/// features and a buffer that holds `text`, and copies each glyph's
/// position and info. Trusted: the result is `shaping_of(data, text)`,
/// and there is one exactly where `data` holds a face: the shaper reads
/// the face with the parser that `face_metrics_of` stands for.
#[verifier::external_body]
fn shape_run(data: &[u8], text: &str) -> (r: Option<Vec<RawGlyph>>)
    ensures
        r.is_some() == shaping_of(data@, text@).is_some(),
        r.is_some() == face_metrics_of(data@).is_some(),
        r matches Some(glyphs) ==> shaping_of(data@, text@) == Some(glyphs@),
{
    let face = rustybuzz::Face::from_slice(data, 0)?;
    let mut buffer = rustybuzz::UnicodeBuffer::new();
    buffer.push_str(text);
    let output = rustybuzz::shape(&face, &[], buffer);
    let glyphs = output.glyph_positions().iter().zip(output.glyph_infos().iter());
    Some(glyphs.map(|(pos, info)| RawGlyph {
        glyph_id: info.glyph_id as u16,
        cluster: info.cluster,
        x_advance: pos.x_advance,
        y_advance: pos.y_advance,
        x_offset: pos.x_offset,
        y_offset: pos.y_offset,
    }).collect())
}

/// The character of the text that a cluster names, a space where it names none.
pub open spec fn cluster_character(text: Seq<char>, cluster: u32) -> char {
    if (cluster as int) < text.len() {
        text[cluster as int]
    } else {
        ' '
    }
}

/// A shaper's glyph converted to pixels at a font size.
pub open spec fn shaped_glyph_of(
    raw: RawGlyph,
    text: Seq<char>,
    font_size: Fixed,
    units_per_em: u16,
) -> ShapedGlyph {
    ShapedGlyph {
        glyph_index: raw.glyph_id,
        character: cluster_character(text, raw.cluster),
        x_offset: Fixed::scaled(raw.x_offset as int, font_size, units_per_em as int),
        y_offset: Fixed::scaled(raw.y_offset as int, font_size, units_per_em as int),
        x_advance: Fixed::scaled(raw.x_advance as int, font_size, units_per_em as int),
        y_advance: Fixed::scaled(raw.y_advance as int, font_size, units_per_em as int),
    }
}

/// The pen's x after the first `count` glyphs, starting from `start`: each
/// glyph moves it by its advance, saturating.
pub open spec fn pen_x(glyphs: Seq<ShapedGlyph>, start: Fixed, count: int) -> Fixed
    decreases count,
{
    if count <= 0 {
        start
    } else {
        Fixed {
            raw: clamp_i32(pen_x(glyphs, start, count - 1).raw + glyphs[count - 1].x_advance.raw),
        }
    }
}

/// The width of a run of glyphs: the sum of their advances.
pub open spec fn total_advance(glyphs: Seq<ShapedGlyph>) -> Fixed {
    pen_x(glyphs, Fixed { raw: 0 }, glyphs.len() as int)
}

/// The glyphs of a shaper's result, each converted to pixels at a font
/// size. A shaper that returned nothing gives no glyphs.
pub open spec fn shaped_glyphs_of(
    raw: Option<Seq<RawGlyph>>,
    text: Seq<char>,
    font_size: Fixed,
    units_per_em: u16,
) -> Seq<ShapedGlyph> {
    match raw {
        Some(glyphs) => Seq::new(
            glyphs.len(),
            |i: int| shaped_glyph_of(glyphs[i], text, font_size, units_per_em),
        ),
        None => Seq::empty(),
    }
}

/// The height of a shaped text: the line height where the text has glyphs
/// and the line height is positive, else zero.
pub open spec fn text_height(glyph_count: nat, line_height: Fixed) -> Fixed {
    if glyph_count > 0 && line_height.raw > 0 {
        line_height
    } else {
        Fixed { raw: 0 }
    }
}

/// How far the start of a text moves for an alignment: not at all for
/// left, back by half the width for center, by the whole width for right.
pub open spec fn align_offset(width: Fixed, align: TextAlign) -> Fixed {
    match align {
        TextAlign::Left => Fixed { raw: 0 },
        TextAlign::Center => Fixed { raw: clamp_i32(-div_round(width.raw as int, 2)) },
        TextAlign::Right => Fixed { raw: clamp_i32(-(width.raw as int)) },
    }
}

/// Where the glyph with index `i` of a run lands when the pen starts at
/// `start`: the pen's position before the glyph, moved by the glyph's offset.
pub open spec fn glyph_position(glyphs: Seq<ShapedGlyph>, start: Point, i: int) -> Point {
    Point {
        x: Fixed { raw: clamp_i32(pen_x(glyphs, start.x, i).raw + glyphs[i].x_offset.raw) },
        y: Fixed { raw: clamp_i32(start.y.raw + glyphs[i].y_offset.raw) },
    }
}

/// The glyphs of a run with their positions, for a text of width `width`
/// laid out from `position` with an alignment.
pub open spec fn placed_glyphs(
    glyphs: Seq<ShapedGlyph>,
    width: Fixed,
    position: Point,
    align: TextAlign,
) -> Seq<(Point, ShapedGlyph)> {
    let start = Point {
        x: Fixed { raw: clamp_i32(position.x.raw + align_offset(width, align).raw) },
        y: position.y,
    };
    Seq::new(glyphs.len(), |i: int| (glyph_position(glyphs, start, i), glyphs[i]))
}

/// The sum of the advances, in font design units, of the first `count`
/// glyphs that the shaper returned.
pub open spec fn advance_units(raw: Seq<RawGlyph>, count: int) -> int
    decreases count,
{
    if count <= 0 {
        0
    } else {
        advance_units(raw, count - 1) + raw[count - 1].x_advance
    }
}

/// The pen does not drift: as long as nothing saturates, its position
/// after any number of glyphs differs from the exact one, the sum of the
/// advances in design units converted to pixels at once, by half a raw
/// unit for each glyph at most. In raw units times the units per em:
/// `|units_per_em * (pen - start) - size * units| <= count * units_per_em / 2`.
pub proof fn lemma_pen_does_not_drift(
    raw: Seq<RawGlyph>,
    text: Seq<char>,
    font_size: Fixed,
    units_per_em: u16,
    start: Fixed,
    count: int,
)
    requires
        units_per_em > 0,
        0 <= count <= raw.len(),
        forall|k: int|
            0 <= k < count ==> i32::MIN < (#[trigger] shaped_glyph_of(
                raw[k],
                text,
                font_size,
                units_per_em,
            )).x_advance.raw < i32::MAX,
        forall|k: int|
            0 <= k <= count ==> i32::MIN < (#[trigger] pen_x(
                shaped_glyphs_of(Some(raw), text, font_size, units_per_em),
                start,
                k,
            )).raw < i32::MAX,
    ensures
        ({
            let glyphs = shaped_glyphs_of(Some(raw), text, font_size, units_per_em);
            let moved = pen_x(glyphs, start, count).raw - start.raw;
            let exact = font_size.raw * advance_units(raw, count);
            -count * units_per_em <= 2 * (units_per_em * moved - exact) <= count * units_per_em
        }),
    decreases count,
{
    let glyphs = shaped_glyphs_of(Some(raw), text, font_size, units_per_em);
    let d = units_per_em as int;
    let size = font_size.raw as int;
    if count > 0 {
        lemma_pen_does_not_drift(raw, text, font_size, units_per_em, start, count - 1);
        let glyph = glyphs[count - 1];
        assert(glyph == shaped_glyph_of(raw[count - 1], text, font_size, units_per_em));
        let units = raw[count - 1].x_advance as int;
        let n = units * size;
        lemma_div_round_error(n, d);
        let before = pen_x(glyphs, start, count - 1).raw as int;
        let after = pen_x(glyphs, start, count).raw as int;
        let step = glyph.x_advance.raw as int;
        assert(step == div_round(n, d));
        assert(after == before + step);
        let units_before = advance_units(raw, count - 1);
        assert(advance_units(raw, count) == units_before + units);
        let drift_before = d * (before - start.raw) - size * units_before;
        let drift = d * (after - start.raw) - size * (units_before + units);
        assert(drift == drift_before + (d * step - n)) by (nonlinear_arith)
            requires
                after == before + step,
                n == units * size,
                drift_before == d * (before - start.raw) - size * units_before,
                drift == d * (after - start.raw) - size * (units_before + units),
        ;
        assert(-(count - 1) * d <= 2 * drift_before <= (count - 1) * d);
        assert(-count * d == -(count - 1) * d - d && count * d == (count - 1) * d + d)
            by (nonlinear_arith);
        assert(-count * d <= 2 * drift <= count * d);
        assert(drift == units_per_em * (pen_x(glyphs, start, count).raw - start.raw)
            - font_size.raw * advance_units(raw, count));
    } else {
        assert(size * advance_units(raw, 0) == 0);
        assert(pen_x(glyphs, start, 0) == start);
        assert(units_per_em * (pen_x(glyphs, start, count).raw - start.raw) == 0);
    }
}

/// The first glyph of a text lands where the text starts, moved by the
/// alignment's offset and by the glyph's own offset; every glyph keeps the
/// y of the start but for its own offset.
pub proof fn lemma_first_glyph_position(
    glyphs: Seq<ShapedGlyph>,
    width: Fixed,
    position: Point,
    align: TextAlign,
)
    requires
        glyphs.len() > 0,
    ensures
        placed_glyphs(glyphs, width, position, align).len() == glyphs.len(),
        placed_glyphs(glyphs, width, position, align)[0].0.x.raw == clamp_i32(
            clamp_i32(position.x.raw + align_offset(width, align).raw) + glyphs[0].x_offset.raw,
        ),
        forall|i: int|
            0 <= i < glyphs.len() ==> (#[trigger] placed_glyphs(
                glyphs,
                width,
                position,
                align,
            )[i]).0.y.raw == clamp_i32(position.y.raw + glyphs[i].y_offset.raw),
{
}

/// The values of a shaped text: its glyphs are the shaper's, each
/// converted to pixels; its width is the sum of their advances; its
/// height is the font's line height, or zero for a text without glyphs or
/// a line height below zero.
pub open spec fn shaped_text_matches(
    shaped: ShapedText,
    raw: Option<Seq<RawGlyph>>,
    text: Seq<char>,
    font_size: Fixed,
    metrics: FaceMetrics,
) -> bool {
    &&& shaped.glyphs@ == shaped_glyphs_of(raw, text, font_size, metrics.units_per_em)
    &&& shaped.width == total_advance(shaped.glyphs@)
    &&& shaped.height == text_height(shaped.glyphs@.len(), line_height_of(metrics, font_size))
}

/// Converts the glyphs that the shaper returned for `text` to pixels at a
/// font size, and measures the text.
pub fn shape_glyphs(
    raw: &Vec<RawGlyph>,
    text: &str,
    font_size: Fixed,
    units_per_em: u16,
    line_height: Fixed,
) -> (shaped: ShapedText)
    ensures
        shaped.glyphs@ == shaped_glyphs_of(Some(raw@), text@, font_size, units_per_em),
        shaped.width == total_advance(shaped.glyphs@),
        shaped.height == text_height(raw@.len(), line_height),
{
    let characters = text.unicode_len();
    let mut glyphs: Vec<ShapedGlyph> = Vec::new();
    let mut width = Fixed::zero();
    let mut i: usize = 0;
    while i < raw.len()
        invariant
            i <= raw.len(),
            characters == text@.len(),
            glyphs@.len() == i,
            forall|j: int|
                0 <= j < i ==> glyphs@[j] == shaped_glyph_of(raw@[j], text@, font_size, units_per_em),
            width == pen_x(glyphs@, Fixed { raw: 0 }, i as int),
        decreases raw.len() - i,
    {
        let glyph = raw[i];
        let cluster = glyph.cluster as usize;
        let character = if cluster < characters {
            text.get_char(cluster)
        } else {
            ' '
        };
        let shaped = ShapedGlyph {
            glyph_index: glyph.glyph_id,
            character,
            x_offset: Fixed::scale(glyph.x_offset, font_size, units_per_em),
            y_offset: Fixed::scale(glyph.y_offset, font_size, units_per_em),
            x_advance: Fixed::scale(glyph.x_advance, font_size, units_per_em),
            y_advance: Fixed::scale(glyph.y_advance, font_size, units_per_em),
        };
        let ghost before = glyphs@;
        glyphs.push(shaped);
        proof {
            lemma_pen_x_prefix(before, glyphs@, Fixed { raw: 0 }, i as int);
        }
        width = width.saturating_add(shaped.x_advance);
        i += 1;
    }
    let height = if raw.len() > 0 && line_height.raw > 0 {
        line_height
    } else {
        Fixed::zero()
    };
    proof {
        assert(glyphs@ =~= shaped_glyphs_of(Some(raw@), text@, font_size, units_per_em));
    }
    ShapedText { glyphs, width, height }
}

/// The pen's position after some glyphs depends on those glyphs only.
pub proof fn lemma_pen_x_prefix(
    shorter: Seq<ShapedGlyph>,
    longer: Seq<ShapedGlyph>,
    start: Fixed,
    count: int,
)
    requires
        0 <= count <= shorter.len() <= longer.len(),
        forall|j: int| 0 <= j < count ==> shorter[j] == longer[j],
    ensures
        pen_x(shorter, start, count) == pen_x(longer, start, count),
    decreases count,
{
    if count > 0 {
        lemma_pen_x_prefix(shorter, longer, start, count - 1);
    }
}

/// Places the glyphs of a shaped text, walking from `position` moved by
/// the alignment's offset.
pub fn place_glyphs(shaped: &ShapedText, position: Point, align: TextAlign) -> (result: Vec<
    (Point, ShapedGlyph),
>)
    ensures
        result@ == placed_glyphs(shaped.glyphs@, shaped.width, position, align),
{
    let x_offset = match align {
        TextAlign::Left => Fixed::zero(),
        TextAlign::Center => shaped.width.half().saturating_neg(),
        TextAlign::Right => shaped.width.saturating_neg(),
    };
    let start_x = position.x.saturating_add(x_offset);
    let ghost start = Point { x: start_x, y: position.y };
    let mut result: Vec<(Point, ShapedGlyph)> = Vec::new();
    let mut x = start_x;
    let y = position.y;
    let mut i: usize = 0;
    while i < shaped.glyphs.len()
        invariant
            i <= shaped.glyphs.len(),
            result@.len() == i,
            x == pen_x(shaped.glyphs@, start_x, i as int),
            start == (Point { x: start_x, y }),
            forall|j: int|
                0 <= j < i ==> result@[j] == (
                    glyph_position(shaped.glyphs@, start, j),
                    shaped.glyphs@[j],
                ),
        decreases shaped.glyphs.len() - i,
    {
        let glyph = shaped.glyphs[i];
        let glyph_pos = Point::new(x.saturating_add(glyph.x_offset), y.saturating_add(glyph.y_offset));
        result.push((glyph_pos, glyph));
        x = x.saturating_add(glyph.x_advance);
        i += 1;
    }
    proof {
        assert(result@ =~= placed_glyphs(shaped.glyphs@, shaped.width, position, align));
    }
    result
}

/// Shapes a text set in a font at a font size: the shaper's glyphs,
/// converted to pixels. The shaper reads every font that was loaded.
pub fn shape_text(font: &Font, font_size: Fixed, text: &str) -> (shaped: ShapedText)
    ensures
        shaping_of(font@, text@).is_some(),
        shaped_text_matches(shaped, shaping_of(font@, text@), text@, font_size, font.metrics()),
{
    let units_per_em = font.units_per_em();
    let line_height = font.line_height(font_size);
    match shape_run(font.data(), text) {
        Some(raw) => shape_glyphs(&raw, text, font_size, units_per_em, line_height),
        None => ShapedText { glyphs: Vec::new(), width: Fixed::zero(), height: Fixed::zero() },
    }
}

/// Lays out a text set in a font at a font size: each glyph of the shaped
/// text with the position of its origin, in the shaper's order.
pub fn layout_text(
    font: &Font,
    font_size: Fixed,
    text: &str,
    position: Point,
    align: TextAlign,
) -> (result: Vec<(Point, ShapedGlyph)>)
    ensures
        shaping_of(font@, text@).is_some(),
        result@ == laid_out(
            shaping_of(font@, text@),
            text@,
            font_size,
            font.metrics().units_per_em,
            position,
            align,
        ),
{
    let shaped = shape_text(font, font_size, text);
    place_glyphs(&shaped, position, align)
}

impl TextLayout {
    /// The font of the layout.
    pub closed spec fn spec_font(&self) -> Font {
        self.font
    }

    /// The font size of the layout.
    pub closed spec fn spec_font_size(&self) -> Fixed {
        self.font_size
    }

    /// Creates a new text layout with font and size.
    pub fn new(font: Font, font_size: Fixed) -> (layout: TextLayout)
        ensures
            layout.spec_font() == font,
            layout.spec_font_size() == font_size,
    {
        TextLayout { font, font_size }
    }

    /// Shapes text: the shaper's glyphs for the text in this font,
    /// converted to pixels at the layout's font size.
    pub fn shape(&self, text: &str) -> (shaped: ShapedText)
        ensures
            shaping_of(self.spec_font()@, text@).is_some(),
            shaped_text_matches(
                shaped,
                shaping_of(self.spec_font()@, text@),
                text@,
                self.spec_font_size(),
                self.spec_font().metrics(),
            ),
    {
        shape_text(&self.font, self.font_size, text)
    }

    /// Lays out text at a position with alignment: each glyph of the shaped
    /// text with the position of its origin, in the shaper's order.
    pub fn layout(&self, text: &str, position: Point, align: TextAlign) -> (result: Vec<
        (Point, ShapedGlyph),
    >)
        ensures
            shaping_of(self.spec_font()@, text@).is_some(),
            result@ == laid_out(
                shaping_of(self.spec_font()@, text@),
                text@,
                self.spec_font_size(),
                self.spec_font().metrics().units_per_em,
                position,
                align,
            ),
    {
        layout_text(&self.font, self.font_size, text, position, align)
    }

    /// Measures text dimensions: width and height.
    pub fn measure(&self, text: &str) -> (r: (Fixed, Fixed))
        ensures
            shaping_of(self.spec_font()@, text@).is_some(),
            r.0 == total_advance(
                shaped_glyphs_of(
                    shaping_of(self.spec_font()@, text@),
                    text@,
                    self.spec_font_size(),
                    self.spec_font().metrics().units_per_em,
                ),
            ),
            r.1 == text_height(
                shaped_glyphs_of(
                    shaping_of(self.spec_font()@, text@),
                    text@,
                    self.spec_font_size(),
                    self.spec_font().metrics().units_per_em,
                ).len(),
                line_height_of(self.spec_font().metrics(), self.spec_font_size()),
            ),
    {
        let shaped = self.shape(text);
        (shaped.width, shaped.height)
    }

    /// The font.
    pub fn font(&self) -> (font: &Font)
        ensures
            *font == self.spec_font(),
    {
        &self.font
    }

    /// The font size.
    pub fn font_size(&self) -> (size: Fixed)
        ensures
            size == self.spec_font_size(),
    {
        self.font_size
    }
}

/// The layout of a text: the shaper's glyphs converted to pixels at a font
/// size and placed from `position` with an alignment.
pub open spec fn laid_out(
    raw: Option<Seq<RawGlyph>>,
    text: Seq<char>,
    font_size: Fixed,
    units_per_em: u16,
    position: Point,
    align: TextAlign,
) -> Seq<(Point, ShapedGlyph)> {
    let glyphs = shaped_glyphs_of(raw, text, font_size, units_per_em);
    placed_glyphs(glyphs, total_advance(glyphs), position, align)
}

} // verus!
