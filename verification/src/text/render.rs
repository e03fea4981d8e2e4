//! Drawing text: the glyphs of a laid-out text are fetched from the glyph
//! cache, rasterized on a miss, and composited onto the pixel buffer.

use crate::color::Color;
use crate::compositor::{blit_glyph, blit_glyph_spec, blit_spec};
use crate::fixed::Fixed;
use crate::geometry::Point;
use crate::paint::Paint;
use crate::text::cache::{
    lemma_served_is_cached, lemma_served_keeps_entries, served, CacheModel, GlyphCache, GlyphKey,
};
use crate::text::face::FaceMetrics;
use crate::text::font::Font;
use crate::text::glyph::GlyphBitmap;
use crate::text::layout::{laid_out, layout_text, shaping_of, ShapedGlyph, TextAlign};
use crate::text::raster::OutlineBitmap;
use vstd::prelude::*;

verus! {

/// The positions of a run of glyphs, each with the bitmap that was drawn there.
pub open spec fn positioned(run: Seq<(Point, ShapedGlyph)>, bitmaps: Seq<GlyphBitmap>) -> Seq<
    (Point, GlyphBitmap),
> {
    Seq::new(run.len(), |i: int| (run[i].0, bitmaps[i]))
}

/// A run of glyphs was drawn with the given bitmaps, the cache passing
/// through the given states: the cache served each glyph in turn, bitmap
/// `i` being what it returned for glyph `i` and `caches[i + 1]` what it
/// was afterwards, and the buffer is the old one with the bitmaps blitted
/// at the glyphs' positions, one after the other.
pub open spec fn drawn_with<F: Fn(u16, Fixed) -> OutlineBitmap>(
    buffer_before: Seq<u32>,
    buffer_after: Seq<u32>,
    width: int,
    run: Seq<(Point, ShapedGlyph)>,
    paint: Color,
    cache_before: CacheModel,
    cache_after: CacheModel,
    data: Seq<u8>,
    metrics: FaceMetrics,
    font_size: Fixed,
    outline: F,
    bitmaps: Seq<GlyphBitmap>,
    caches: Seq<CacheModel>,
) -> bool {
    &&& bitmaps.len() == run.len()
    &&& caches.len() == run.len() + 1
    &&& caches[0] == cache_before
    &&& caches[run.len() as int] == cache_after
    &&& forall|i: int|
        0 <= i < run.len() ==> served(
            caches[i],
            caches[i + 1],
            data,
            metrics,
            run[i].1.glyph_index,
            font_size,
            outline,
            #[trigger] bitmaps[i],
        )
    &&& buffer_after == blit_spec(buffer_before, width, positioned(run, bitmaps), paint)
}

/// A run of glyphs of a font at a font size was drawn in `paint`, with
/// `outline` as the outline rasterizer: there are bitmaps and states of the
/// cache with which it was drawn as `drawn_with` says.
pub open spec fn drawn<F: Fn(u16, Fixed) -> OutlineBitmap>(
    buffer_before: Seq<u32>,
    buffer_after: Seq<u32>,
    width: int,
    run: Seq<(Point, ShapedGlyph)>,
    paint: Color,
    cache_before: CacheModel,
    cache_after: CacheModel,
    data: Seq<u8>,
    metrics: FaceMetrics,
    font_size: Fixed,
    outline: F,
) -> bool {
    exists|bitmaps: Seq<GlyphBitmap>, caches: Seq<CacheModel>|
        drawn_with(
            buffer_before,
            buffer_after,
            width,
            run,
            paint,
            cache_before,
            cache_after,
            data,
            metrics,
            font_size,
            outline,
            bitmaps,
            caches,
        )
}

/// Blitting keeps the length of the buffer.
pub proof fn lemma_blit_keeps_length(
    buf: Seq<u32>,
    width: int,
    glyphs: Seq<(Point, GlyphBitmap)>,
    paint: Color,
)
    ensures
        blit_spec(buf, width, glyphs, paint).len() == buf.len(),
    decreases glyphs.len(),
{
    if glyphs.len() > 0 {
        lemma_blit_keeps_length(buf, width, glyphs.drop_last(), paint);
    }
}

/// Within one run, a glyph that occurs again is drawn with the same bitmap
/// as before, unless its entry left the cache in between.
pub proof fn lemma_same_glyph_same_bitmap<F: Fn(u16, Fixed) -> OutlineBitmap>(
    buffer_before: Seq<u32>,
    buffer_after: Seq<u32>,
    width: int,
    run: Seq<(Point, ShapedGlyph)>,
    paint: Color,
    cache_before: CacheModel,
    cache_after: CacheModel,
    data: Seq<u8>,
    metrics: FaceMetrics,
    font_size: Fixed,
    outline: F,
    bitmaps: Seq<GlyphBitmap>,
    caches: Seq<CacheModel>,
    first: int,
    second: int,
)
    requires
        cache_before.wf(),
        drawn_with(
            buffer_before,
            buffer_after,
            width,
            run,
            paint,
            cache_before,
            cache_after,
            data,
            metrics,
            font_size,
            outline,
            bitmaps,
            caches,
        ),
        0 <= first < second < run.len(),
        run[first].1.glyph_index == run[second].1.glyph_index,
        forall|k: int|
            first < k <= second ==> (#[trigger] caches[k]).entries.contains_key(
                GlyphKey::of(run[first].1.glyph_index, font_size),
            ),
    ensures
        bitmaps[second] == bitmaps[first],
{
    let key = GlyphKey::of(run[first].1.glyph_index, font_size);
    assert(forall|k: int| 0 <= k <= run.len() ==> (#[trigger] caches[k]).wf()) by {
        assert forall|k: int| 0 <= k <= run.len() implies (#[trigger] caches[k]).wf() by {
            if k > 0 {
                assert(served(
                    caches[k - 1],
                    caches[k - 1 + 1],
                    data,
                    metrics,
                    run[k - 1].1.glyph_index,
                    font_size,
                    outline,
                    bitmaps[k - 1],
                ));
            }
        }
    }
    lemma_served_is_cached(
        caches[first],
        caches[first + 1],
        data,
        metrics,
        run[first].1.glyph_index,
        font_size,
        outline,
        bitmaps[first],
    );
    lemma_entry_persists(
        run,
        data,
        metrics,
        font_size,
        outline,
        bitmaps,
        caches,
        key,
        first + 1,
        second,
    );
    assert(served(
        caches[second],
        caches[second + 1],
        data,
        metrics,
        run[second].1.glyph_index,
        font_size,
        outline,
        bitmaps[second],
    ));
}

/// An entry that stays in the cache from one state of a run to a later one
/// stays the same.
proof fn lemma_entry_persists<F: Fn(u16, Fixed) -> OutlineBitmap>(
    run: Seq<(Point, ShapedGlyph)>,
    data: Seq<u8>,
    metrics: FaceMetrics,
    font_size: Fixed,
    outline: F,
    bitmaps: Seq<GlyphBitmap>,
    caches: Seq<CacheModel>,
    key: GlyphKey,
    from: int,
    to: int,
)
    requires
        bitmaps.len() == run.len(),
        caches.len() == run.len() + 1,
        forall|i: int|
            0 <= i < run.len() ==> served(
                caches[i],
                caches[i + 1],
                data,
                metrics,
                run[i].1.glyph_index,
                font_size,
                outline,
                #[trigger] bitmaps[i],
            ),
        forall|k: int| 0 <= k <= run.len() ==> (#[trigger] caches[k]).wf(),
        0 <= from <= to <= run.len(),
        forall|k: int| from <= k <= to ==> (#[trigger] caches[k]).entries.contains_key(key),
    ensures
        caches[to].entries[key] == caches[from].entries[key],
    decreases to - from,
{
    if from < to {
        lemma_entry_persists(
            run,
            data,
            metrics,
            font_size,
            outline,
            bitmaps,
            caches,
            key,
            from,
            to - 1,
        );
        assert(served(
            caches[to - 1],
            caches[to - 1 + 1],
            data,
            metrics,
            run[to - 1].1.glyph_index,
            font_size,
            outline,
            bitmaps[to - 1],
        ));
        lemma_served_keeps_entries(
            caches[to - 1],
            caches[to],
            data,
            metrics,
            run[to - 1].1.glyph_index,
            font_size,
            outline,
            bitmaps[to - 1],
            key,
        );
    }
}

/// Composites positioned glyphs of a font at a font size onto a buffer of
/// `width` by `height` pixels, in `paint`. The bitmap of each glyph comes
/// from the cache, which rasterizes it on a miss. Glyphs without pixels
/// and glyphs outside the buffer are skipped; those that reach over an
/// edge are clipped.
pub fn blit<F: Fn(u16, Fixed) -> OutlineBitmap>(
    buffer: &mut [u32],
    width: usize,
    height: usize,
    glyphs: &Vec<(Point, ShapedGlyph)>,
    paint: Color,
    font: &Font,
    font_size: Fixed,
    cache: &mut GlyphCache,
    outline: &F,
)
    requires
        old(buffer)@.len() == width * height,
        forall|i: int|
            0 <= i < glyphs@.len() ==> outline.requires(
                ((#[trigger] glyphs@[i]).1.glyph_index, font_size),
            ),
    ensures
        final(buffer)@.len() == old(buffer)@.len(),
        drawn(
            old(buffer)@,
            final(buffer)@,
            width as int,
            glyphs@,
            paint,
            old(cache)@,
            final(cache)@,
            font@,
            font.metrics(),
            font_size,
            *outline,
        ),
{
    let ghost before = buffer@;
    let ghost cache_before = cache@;
    let ghost mut bitmaps: Seq<GlyphBitmap> = Seq::empty();
    let ghost mut caches: Seq<CacheModel> = seq![cache@];
    let mut i: usize = 0;
    proof {
        assert(positioned(glyphs@.take(0), bitmaps) =~= Seq::empty());
    }
    while i < glyphs.len()
        invariant
            i <= glyphs.len(),
            buffer@.len() == width * height,
            before.len() == width * height,
            forall|i: int|
                0 <= i < glyphs@.len() ==> outline.requires(
                    ((#[trigger] glyphs@[i]).1.glyph_index, font_size),
                ),
            bitmaps.len() == i,
            caches.len() == i + 1,
            caches[0] == cache_before,
            caches[i as int] == cache@,
            forall|j: int|
                0 <= j < i ==> served(
                    caches[j],
                    caches[j + 1],
                    font@,
                    font.metrics(),
                    glyphs@[j].1.glyph_index,
                    font_size,
                    *outline,
                    #[trigger] bitmaps[j],
                ),
            buffer@ == blit_spec(
                before,
                width as int,
                positioned(glyphs@.take(i as int), bitmaps),
                paint,
            ),
        decreases glyphs.len() - i,
    {
        let (position, shaped) = glyphs[i];
        let ghost drawn_so_far = positioned(glyphs@.take(i as int), bitmaps);
        let fetched = cache.get_or_rasterize_indexed(font, shaped.glyph_index, font_size, outline);
        if let Some(glyph) = fetched {
            blit_glyph(buffer, width, height, position, &glyph, paint);
            proof {
                bitmaps = bitmaps.push(glyph@);
                caches = caches.push(cache@);
                let now = positioned(glyphs@.take(i + 1), bitmaps);
                assert(now.drop_last() =~= drawn_so_far);
                assert(now.last() == (position, glyph@));
                lemma_blit_keeps_length(before, width as int, drawn_so_far, paint);
            }
        }
        i += 1;
    }
    proof {
        assert(glyphs@.take(i as int) =~= glyphs@);
        assert(drawn_with(
            before,
            buffer@,
            width as int,
            glyphs@,
            paint,
            cache_before,
            cache@,
            font@,
            font.metrics(),
            font_size,
            *outline,
            bitmaps,
            caches,
        ));
    }
}

/// Draws a text set in a font at a font size into a buffer of `width` by
/// `height` pixels, left-aligned at `position`, in the colour of `paint`:
/// the text is laid out, and its glyphs are composited as `blit` does.
pub fn draw_text<F: Fn(u16, Fixed) -> OutlineBitmap>(
    buffer: &mut [u32],
    width: usize,
    height: usize,
    text: &str,
    position: Point,
    font: &Font,
    font_size: Fixed,
    paint: &Paint,
    cache: &mut GlyphCache,
    outline: &F,
)
    requires
        old(buffer)@.len() == width * height,
        forall|glyph_index: u16| outline.requires((glyph_index, font_size)),
    ensures
        final(buffer)@.len() == old(buffer)@.len(),
        shaping_of(font@, text@).is_some(),
        drawn(
            old(buffer)@,
            final(buffer)@,
            width as int,
            laid_out(
                shaping_of(font@, text@),
                text@,
                font_size,
                font.metrics().units_per_em,
                position,
                TextAlign::Left,
            ),
            paint.color,
            old(cache)@,
            final(cache)@,
            font@,
            font.metrics(),
            font_size,
            *outline,
        ),
{
    let glyphs = layout_text(font, font_size, text, position, TextAlign::Left);
    blit(buffer, width, height, &glyphs, paint.color, font, font_size, cache, outline);
}

} // verus!
