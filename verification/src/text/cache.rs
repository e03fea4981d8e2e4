//! The glyph cache: a bounded store of rasterized glyphs, keyed by glyph
//! index and quantized font size.
//!
//! When the cache is full, the entry that was stored first makes room for
//! the new one (first in, first out). A hit does not change that order. A
//! cache of capacity zero keeps nothing: every request is a miss.

use crate::fixed::Fixed;
use crate::text::face::{glyph_index_of, FaceMetrics};
use crate::text::font::Font;
use crate::text::glyph::{GlyphBitmap, RasterizedGlyph};
use crate::text::raster::{rasterize, rasterized, OutlineBitmap};
use std::collections::HashMap;
use std::collections::VecDeque;
use vstd::prelude::*;

verus! {

broadcast use vstd::std_specs::hash::group_hash_axioms;

/// Cache key for glyph lookup.
#[derive(Debug, Clone, Copy, PartialEq, Eq, Structural)]
pub struct GlyphKey {
    pub glyph_index: u16,
    /// Font size in hundredths of a pixel, rounded to the nearest.
    pub size_quantized: u32,
}

/// The font size in hundredths of a pixel, rounded to the nearest (ties
/// upwards); zero for a size that is not positive.
pub open spec fn quantized_size(font_size: Fixed) -> u32 {
    if font_size.raw <= 0 {
        0
    } else {
        ((font_size.raw as int * 100 + 32768) / 65536) as u32
    }
}

/// Quantizes a font size to hundredths of a pixel.
pub fn quantize_size(font_size: Fixed) -> (q: u32)
    ensures
        q == quantized_size(font_size),
{
    if font_size.raw <= 0 {
        0
    } else {
        let wide: u64 = (font_size.raw as u64 * 100 + 32768) / 65536;
        wide as u32
    }
}

/// Quantization is monotone, and sizes that are a hundredth of a pixel or
/// more apart (656 raw units) never share a quantized size.
pub proof fn lemma_quantized_size_separates(a: Fixed, b: Fixed)
    requires
        a.raw <= b.raw,
    ensures
        quantized_size(a) <= quantized_size(b),
        a.raw > 0 && b.raw - a.raw >= 656 ==> quantized_size(a) < quantized_size(b),
{
    if a.raw > 0 {
        let x = a.raw as int * 100 + 32768;
        let y = b.raw as int * 100 + 32768;
        vstd::arithmetic::div_mod::lemma_div_is_ordered(x, y, 65536);
        if b.raw - a.raw >= 656 {
            vstd::arithmetic::div_mod::lemma_div_is_ordered(x + 65536, y, 65536);
            vstd::arithmetic::div_mod::lemma_div_plus_one(x, 65536);
        }
    } else if b.raw > 0 {
        vstd::arithmetic::div_mod::lemma_div_pos_is_pos(b.raw as int * 100 + 32768, 65536);
    }
}

impl GlyphKey {
    /// The key of a glyph at a font size.
    pub open spec fn of(glyph_index: u16, font_size: Fixed) -> GlyphKey {
        GlyphKey { glyph_index, size_quantized: quantized_size(font_size) }
    }

    /// The key as one number: the glyph index above the 32 bits of the size.
    pub open spec fn packed(self) -> u64 {
        (self.glyph_index as int * 0x1_0000_0000 + self.size_quantized as int) as u64
    }

    /// The key of a glyph at a font size.
    pub fn new(glyph_index: u16, font_size: Fixed) -> (key: GlyphKey)
        ensures
            key == GlyphKey::of(glyph_index, font_size),
    {
        GlyphKey { glyph_index, size_quantized: quantize_size(font_size) }
    }

    fn pack(&self) -> (p: u64)
        ensures
            p == self.packed(),
    {
        (self.glyph_index as u64) * 0x1_0000_0000 + self.size_quantized as u64
    }

    /// Different keys are different numbers.
    pub proof fn lemma_packed_injective(self, other: GlyphKey)
        ensures
            self.packed() == other.packed() <==> self == other,
    {
    }
}

/// What a glyph cache holds: its entries, the keys in the order in which
/// they were stored (oldest first), and the capacity.
pub struct CacheModel {
    pub entries: Map<GlyphKey, GlyphBitmap>,
    pub order: Seq<GlyphKey>,
    pub max_size: nat,
}

impl CacheModel {
    /// The empty cache of a given capacity.
    pub open spec fn empty(max_size: nat) -> CacheModel {
        CacheModel { entries: Map::empty(), order: Seq::empty(), max_size }
    }

    /// Number of entries.
    pub open spec fn len(self) -> nat {
        self.order.len()
    }

    /// The keys in `order` are the keys of `entries`, each once; the pixel
    /// data of every entry matches the entry's size and format; and the
    /// cache holds no more entries than its capacity.
    pub open spec fn wf(self) -> bool {
        &&& self.order.no_duplicates()
        &&& forall|k: GlyphKey| #[trigger] self.entries.contains_key(k) <==> self.order.contains(k)
        &&& forall|k: GlyphKey|
            self.entries.contains_key(k) ==> (#[trigger] self.entries[k]).well_formed()
        &&& self.order.len() <= self.max_size
    }

    /// Whether the cache holds as many entries as its capacity allows.
    pub open spec fn full(self) -> bool {
        self.order.len() >= self.max_size
    }

    /// The cache without its oldest entry.
    pub open spec fn evicted(self) -> CacheModel {
        CacheModel {
            entries: self.entries.remove(self.order[0]),
            order: self.order.drop_first(),
            max_size: self.max_size,
        }
    }

    /// The cache after `glyph` is stored under `key`. Under a key that the
    /// cache holds, the glyph takes the place of the entry, which keeps
    /// its age. Under a new key, a full cache first loses its oldest
    /// entry, and the glyph becomes the youngest. A cache of capacity
    /// zero has no room to make: it stays as it is, and the glyph is not
    /// kept.
    pub open spec fn stored(self, key: GlyphKey, glyph: GlyphBitmap) -> CacheModel {
        if self.entries.contains_key(key) {
            CacheModel {
                entries: self.entries.insert(key, glyph),
                order: self.order,
                max_size: self.max_size,
            }
        } else if self.max_size == 0 {
            self
        } else {
            let room = if self.full() {
                self.evicted()
            } else {
                self
            };
            CacheModel {
                entries: room.entries.insert(key, glyph),
                order: room.order.push(key),
                max_size: self.max_size,
            }
        }
    }

    /// The cache after it is emptied.
    pub open spec fn cleared(self) -> CacheModel {
        CacheModel::empty(self.max_size)
    }

    /// A cache never holds more entries than its capacity, and storing an
    /// entry keeps it so.
    pub proof fn lemma_capacity_bound(self, key: GlyphKey, glyph: GlyphBitmap)
        requires
            self.wf(),
            glyph.well_formed(),
        ensures
            self.len() <= self.max_size,
            self.stored(key, glyph).len() <= self.max_size,
            self.stored(key, glyph).max_size == self.max_size,
    {
        self.lemma_stored(key, glyph);
    }

    /// Storing an entry keeps the cache well-formed. In a cache that has
    /// a capacity, it makes the entry the one found under its key; under
    /// a new key the cache grows by one unless it was full, and keeps
    /// every other entry but the evicted one. A cache of capacity zero
    /// stays empty.
    pub proof fn lemma_stored(self, key: GlyphKey, glyph: GlyphBitmap)
        requires
            self.wf(),
            glyph.well_formed(),
        ensures
            self.stored(key, glyph).wf(),
            self.max_size >= 1 ==> self.stored(key, glyph).entries.contains_key(key)
                && self.stored(key, glyph).entries[key] == glyph,
            self.max_size == 0 ==> self.stored(key, glyph) == self && self.len() == 0,
            self.stored(key, glyph).len() == (if self.entries.contains_key(key) || self.full() {
                self.len()
            } else {
                self.len() + 1
            }),
            forall|k: GlyphKey|
                k != key && self.entries.contains_key(k) && !(!self.entries.contains_key(key)
                    && self.full() && k == self.order[0])
                    ==> #[trigger] self.stored(key, glyph).entries.contains_key(k)
                    && self.stored(key, glyph).entries[k] == self.entries[k],
    {
        if self.entries.contains_key(key) {
            assert(self.order.contains(key));
            assert forall|k: GlyphKey| #[trigger]
                self.stored(key, glyph).entries.contains_key(k) <==> self.order.contains(k) by {}
        } else if self.max_size == 0 {
        } else {
            let room = if self.full() {
                self.evicted()
            } else {
                self
            };
            if self.full() {
                assert(self.order.contains(self.order[0]));
                assert forall|k: GlyphKey| #[trigger]
                    room.entries.contains_key(k) <==> room.order.contains(k) by {
                    if room.order.contains(k) {
                        let j = choose|j: int| 0 <= j < room.order.len() && room.order[j] == k;
                        assert(self.order[j + 1] == k);
                    }
                    if self.order.contains(k) && k != self.order[0] {
                        let j = choose|j: int| 0 <= j < self.order.len() && self.order[j] == k;
                        assert(room.order[j - 1] == k);
                    }
                }
            }
            assert(room.order.no_duplicates());
            assert(!room.order.contains(key));
            let after = self.stored(key, glyph);
            assert(after.order.no_duplicates()) by {
                assert forall|i: int, j: int|
                    0 <= i < after.order.len() && 0 <= j < after.order.len() && i != j implies
                    after.order[i] != after.order[j] by {
                    if i < room.order.len() {
                        assert(room.order.contains(room.order[i]));
                    }
                    if j < room.order.len() {
                        assert(room.order.contains(room.order[j]));
                    }
                }
            }
            assert forall|k: GlyphKey| #[trigger]
                after.entries.contains_key(k) <==> after.order.contains(k) by {
                if after.order.contains(k) {
                    let j = choose|j: int| 0 <= j < after.order.len() && after.order[j] == k;
                    if j < room.order.len() {
                        assert(room.order.contains(k));
                    }
                }
                if room.order.contains(k) {
                    let j = choose|j: int| 0 <= j < room.order.len() && room.order[j] == k;
                    assert(after.order[j] == k);
                }
                assert(after.order[room.order.len() as int] == key);
            }
        }
    }
}

/// What one request to the cache does, for a glyph of a font at a font
/// size with `outline` as the outline rasterizer, when `glyph` is what
/// comes back. On a hit `glyph` is the entry under the glyph's key, and
/// the cache stays as it is. On a miss `glyph` is what the rasterizer
/// adapter made, and the cache has stored it under the key, if it has a
/// capacity. Either way the pixel data of `glyph` matches its size and
/// format.
pub open spec fn served<F: Fn(u16, Fixed) -> OutlineBitmap>(
    before: CacheModel,
    after: CacheModel,
    data: Seq<u8>,
    metrics: FaceMetrics,
    glyph_index: u16,
    font_size: Fixed,
    outline: F,
    glyph: GlyphBitmap,
) -> bool {
    let key = GlyphKey::of(glyph_index, font_size);
    &&& after.wf()
    &&& glyph.well_formed()
    &&& if before.entries.contains_key(key) {
        glyph == before.entries[key] && after == before
    } else {
        rasterized(data, metrics, glyph_index, font_size, outline, glyph) && after
            == before.stored(key, glyph)
    }
}

/// A request to the cache returned `result`: some glyph, as `served` says.
pub open spec fn fetched<F: Fn(u16, Fixed) -> OutlineBitmap>(
    before: CacheModel,
    after: CacheModel,
    data: Seq<u8>,
    metrics: FaceMetrics,
    glyph_index: u16,
    font_size: Fixed,
    outline: F,
    result: Option<RasterizedGlyph>,
) -> bool {
    &&& result.is_some()
    &&& served(before, after, data, metrics, glyph_index, font_size, outline, result.unwrap()@)
}

/// Two requests in a row to a cache that has a capacity, for the same
/// glyph at sizes that quantize to the same hundredth of a pixel, return
/// the same bitmap, and the second one leaves the cache as it is.
pub proof fn lemma_fetch_twice<F: Fn(u16, Fixed) -> OutlineBitmap>(
    before: CacheModel,
    between: CacheModel,
    after: CacheModel,
    data: Seq<u8>,
    metrics: FaceMetrics,
    glyph_index: u16,
    first_size: Fixed,
    second_size: Fixed,
    outline: F,
    first: Option<RasterizedGlyph>,
    second: Option<RasterizedGlyph>,
)
    requires
        before.wf(),
        before.max_size >= 1,
        quantized_size(first_size) == quantized_size(second_size),
        fetched(before, between, data, metrics, glyph_index, first_size, outline, first),
        fetched(between, after, data, metrics, glyph_index, second_size, outline, second),
    ensures
        first.is_some() && second.is_some(),
        second.unwrap()@ == first.unwrap()@,
        after == between,
{
    let key = GlyphKey::of(glyph_index, first_size);
    if !before.entries.contains_key(key) {
        before.lemma_stored(key, first.unwrap()@);
    }
}

/// A request leaves every entry as it is that was in the cache before it
/// and is in the cache after it: an entry changes only by being evicted.
pub proof fn lemma_served_keeps_entries<F: Fn(u16, Fixed) -> OutlineBitmap>(
    before: CacheModel,
    after: CacheModel,
    data: Seq<u8>,
    metrics: FaceMetrics,
    glyph_index: u16,
    font_size: Fixed,
    outline: F,
    glyph: GlyphBitmap,
    key: GlyphKey,
)
    requires
        before.wf(),
        served(before, after, data, metrics, glyph_index, font_size, outline, glyph),
        before.entries.contains_key(key),
        after.entries.contains_key(key),
    ensures
        after.entries[key] == before.entries[key],
{
}

/// After a request to a cache that has a capacity, the glyph that came
/// back is the entry under its key.
pub proof fn lemma_served_is_cached<F: Fn(u16, Fixed) -> OutlineBitmap>(
    before: CacheModel,
    after: CacheModel,
    data: Seq<u8>,
    metrics: FaceMetrics,
    glyph_index: u16,
    font_size: Fixed,
    outline: F,
    glyph: GlyphBitmap,
)
    requires
        before.wf(),
        before.max_size >= 1,
        served(before, after, data, metrics, glyph_index, font_size, outline, glyph),
    ensures
        after.entries.contains_key(GlyphKey::of(glyph_index, font_size)),
        after.entries[GlyphKey::of(glyph_index, font_size)] == glyph,
{
    let key = GlyphKey::of(glyph_index, font_size);
    if !before.entries.contains_key(key) {
        before.lemma_stored(key, glyph);
    }
}

/// Requests for the same glyph at sizes a hundredth of a pixel or more
/// apart use different entries of the cache.
pub proof fn lemma_distinct_sizes_distinct_keys(glyph_index: u16, smaller: Fixed, larger: Fixed)
    requires
        smaller.raw > 0,
        larger.raw - smaller.raw >= 656,
    ensures
        GlyphKey::of(glyph_index, smaller) != GlyphKey::of(glyph_index, larger),
{
    lemma_quantized_size_separates(smaller, larger);
}

/// A store of rasterized glyphs, bounded by a capacity, that evicts its
/// oldest entry when a new one needs room.
pub struct GlyphCache {
    entries: HashMap<u64, RasterizedGlyph>,
    order: VecDeque<GlyphKey>,
    max_size: usize,
}

/// The entries of a key-packed map as a map over keys.
pub open spec fn keyed(entries: Map<u64, RasterizedGlyph>) -> Map<GlyphKey, GlyphBitmap> {
    Map::new(
        |k: GlyphKey| entries.contains_key(k.packed()),
        |k: GlyphKey| entries[k.packed()]@,
    )
}

impl View for GlyphCache {
    type V = CacheModel;

    closed spec fn view(&self) -> CacheModel {
        CacheModel {
            entries: keyed(self.entries@),
            order: self.order@,
            max_size: self.max_size as nat,
        }
    }
}

/// Stores `glyph` under `key` in the two halves of a cache, evicting the
/// oldest entry first where the cache is full.
fn store_entry(
    entries: &mut HashMap<u64, RasterizedGlyph>,
    order: &mut VecDeque<GlyphKey>,
    max_size: usize,
    key: GlyphKey,
    glyph: RasterizedGlyph,
)
    requires
        (CacheModel {
            entries: keyed(old(entries)@),
            order: old(order)@,
            max_size: max_size as nat,
        }).wf(),
        glyph@.well_formed(),
    ensures
        (CacheModel {
            entries: keyed(final(entries)@),
            order: final(order)@,
            max_size: max_size as nat,
        }) == (CacheModel {
            entries: keyed(old(entries)@),
            order: old(order)@,
            max_size: max_size as nat,
        }).stored(key, glyph@),
{
    let ghost before = CacheModel {
        entries: keyed(entries@),
        order: order@,
        max_size: max_size as nat,
    };
    let packed = key.pack();
    if entries.contains_key(&packed) {
        entries.insert(packed, glyph);
        proof {
            assert(keyed(entries@) =~= before.entries.insert(key, glyph@)) by {
                assert forall|k: GlyphKey|
                    keyed(entries@).contains_key(k) <==> before.entries.insert(
                        key,
                        glyph@,
                    ).contains_key(k) by {
                    k.lemma_packed_injective(key);
                }
                assert forall|k: GlyphKey| keyed(entries@).contains_key(k) implies keyed(
                    entries@,
                )[k] == before.entries.insert(key, glyph@)[k] by {
                    k.lemma_packed_injective(key);
                }
            }
        }
        return ;
    }
    if max_size == 0 {
        return ;
    }
    if order.len() >= max_size {
        match order.pop_front() {
            Some(oldest) => {
                let oldest_packed = oldest.pack();
                entries.remove(&oldest_packed);
                proof {
                    assert(keyed(entries@) =~= before.evicted().entries) by {
                        assert forall|k: GlyphKey|
                            keyed(entries@).contains_key(k) <==> before.evicted().entries.contains_key(
                                k,
                            ) by {
                            k.lemma_packed_injective(oldest);
                        }
                    }
                    assert(order@ =~= before.evicted().order);
                }
            },
            None => {},
        }
    }
    let ghost room = CacheModel {
        entries: keyed(entries@),
        order: order@,
        max_size: max_size as nat,
    };
    order.push_back(key);
    entries.insert(packed, glyph);
    proof {
        assert(keyed(entries@) =~= room.entries.insert(key, glyph@)) by {
            assert forall|k: GlyphKey|
                keyed(entries@).contains_key(k) <==> room.entries.insert(
                    key,
                    glyph@,
                ).contains_key(k) by {
                k.lemma_packed_injective(key);
            }
            assert forall|k: GlyphKey| keyed(entries@).contains_key(k) implies keyed(
                entries@,
            )[k] == room.entries.insert(key, glyph@)[k] by {
                k.lemma_packed_injective(key);
            }
        }
    }
}

impl GlyphCache {
    #[verifier::type_invariant]
    spec fn inv(self) -> bool {
        self@.wf()
    }

    /// Creates an empty glyph cache with the given capacity.
    pub fn new(max_size: usize) -> (cache: GlyphCache)
        ensures
            cache@ == CacheModel::empty(max_size as nat),
            cache@.wf(),
    {
        let cache = GlyphCache { entries: HashMap::new(), order: VecDeque::new(), max_size };
        proof {
            assert(cache@.entries =~= Map::empty());
        }
        cache
    }

    /// The entry stored under `key`, if there is one.
    pub fn get(&self, key: GlyphKey) -> (found: Option<RasterizedGlyph>)
        ensures
            self@.wf(),
            found.is_some() == self@.entries.contains_key(key),
            found matches Some(glyph) ==> glyph@ == self@.entries[key] && glyph@.well_formed(),
    {
        proof {
            use_type_invariant(self);
        }
        let packed = key.pack();
        match self.entries.get(&packed) {
            Some(glyph) => Some(glyph.clone()),
            None => None,
        }
    }

    /// Stores `glyph` under `key`. Under a new key, a full cache first
    /// evicts its oldest entry; under a key that the cache holds, the
    /// glyph takes the place of the entry. A glyph whose pixel data does
    /// not match its size and format is stored as the glyph without pixels.
    /// A cache of capacity zero stores nothing.
    pub fn insert(&mut self, key: GlyphKey, glyph: RasterizedGlyph)
        ensures
            final(self)@ == old(self)@.stored(key, glyph@.normalized()),
            final(self)@.wf(),
    {
        let glyph = glyph.normalized();
        proof {
            use_type_invariant(&*self);
            self@.lemma_stored(key, glyph@);
        }
        // The parts are taken out and put back whole, so that the cache is
        // never left half-updated.
        let mut taken = GlyphCache { entries: HashMap::new(), order: VecDeque::new(), max_size: 0 };
        core::mem::swap(self, &mut taken);
        let GlyphCache { mut entries, mut order, max_size } = taken;
        store_entry(&mut entries, &mut order, max_size, key, glyph);
        *self = GlyphCache { entries, order, max_size };
    }

    /// Returns the rasterized glyph of a glyph index at a font size: the
    /// cached one on a hit; on a miss the one that the rasterizer adapter
    /// makes, which is stored before it is returned, if the cache has a
    /// capacity. It never fails, and the cache never exceeds its capacity.
    pub fn get_or_rasterize_indexed<F: Fn(u16, Fixed) -> OutlineBitmap>(
        &mut self,
        font: &Font,
        glyph_index: u16,
        font_size: Fixed,
        outline: &F,
    ) -> (r: Option<RasterizedGlyph>)
        requires
            outline.requires((glyph_index, font_size)),
        ensures
            fetched(
                old(self)@,
                final(self)@,
                font@,
                font.metrics(),
                glyph_index,
                font_size,
                *outline,
                r,
            ),
            r matches Some(glyph) ==> glyph@.well_formed(),
            final(self)@.max_size == old(self)@.max_size,
            final(self)@.len() <= final(self)@.max_size,
    {
        proof {
            use_type_invariant(&*self);
        }
        let key = GlyphKey::new(glyph_index, font_size);
        match self.get(key) {
            Some(glyph) => Some(glyph),
            None => {
                let glyph = rasterize(font, glyph_index, font_size, outline);
                let copy = glyph.clone();
                self.insert(key, glyph);
                Some(copy)
            },
        }
    }

    /// Returns the rasterized glyph of a character at a font size. Where
    /// the font has no glyph for the character, it returns the glyph
    /// without pixels, which takes no room and is skipped when drawn, and
    /// the cache stays as it is.
    pub fn get_or_rasterize<F: Fn(u16, Fixed) -> OutlineBitmap>(
        &mut self,
        font: &Font,
        character: char,
        font_size: Fixed,
        outline: &F,
    ) -> (r: Option<RasterizedGlyph>)
        requires
            forall|glyph_index: u16| outline.requires((glyph_index, font_size)),
        ensures
            match glyph_index_of(font@, character) {
                Some(glyph_index) => fetched(
                    old(self)@,
                    final(self)@,
                    font@,
                    font.metrics(),
                    glyph_index,
                    font_size,
                    *outline,
                    r,
                ),
                None => r.is_some() && r.unwrap()@ == GlyphBitmap::empty() && final(self)@ == old(
                    self,
                )@,
            },
            r matches Some(glyph) ==> glyph@.well_formed(),
            final(self)@.max_size == old(self)@.max_size,
            final(self)@.len() <= final(self)@.max_size,
    {
        proof {
            use_type_invariant(&*self);
        }
        match font.glyph_index(character) {
            Some(glyph_index) => self.get_or_rasterize_indexed(
                font,
                glyph_index,
                font_size,
                outline,
            ),
            None => Some(RasterizedGlyph::empty()),
        }
    }

    /// Clears the cache.
    pub fn clear(&mut self)
        ensures
            final(self)@ == old(self)@.cleared(),
            final(self)@.wf(),
    {
        let max_size = self.max_size;
        *self = GlyphCache { entries: HashMap::new(), order: VecDeque::new(), max_size };
        proof {
            assert(self@.entries =~= Map::empty());
        }
    }

    /// Current number of entries.
    pub fn len(&self) -> (n: usize)
        ensures
            n == self@.len(),
            self@.wf(),
            n <= self@.max_size,
    {
        proof {
            use_type_invariant(self);
        }
        self.order.len()
    }

    /// Whether the cache holds no entry.
    pub fn is_empty(&self) -> (b: bool)
        ensures
            b == (self@.len() == 0),
    {
        self.order.len() == 0
    }

    /// The capacity that the cache was made with.
    pub fn max_size(&self) -> (n: usize)
        ensures
            n == self@.max_size,
    {
        self.max_size
    }
}

impl Default for GlyphCache {
    /// A cache for 1000 glyphs.
    fn default() -> (cache: GlyphCache)
        ensures
            cache@ == CacheModel::empty(1000),
    {
        GlyphCache::new(1000)
    }
}

} // verus!
