//! Layout helpers: centering, alignment, padding, distribution, and a
//! generation-based measurement cache.
use std::collections::HashMap;
use vstd::prelude::*;
use vstd::std_specs::hash::obeys_key_model;

verus! {

broadcast use vstd::std_specs::hash::group_hash_axioms;

/// Gap between a control indicator (checkbox, radio) and its label text.
pub const LABEL_GAP: u32 = 6;

/// The value a `u32` takes when reinterpreted as an `i32` (two's complement).
pub open spec fn as_i32(x: u32) -> int {
    if x <= i32::MAX {
        x as int
    } else {
        x as int - 0x1_0000_0000
    }
}

/// The value a mathematical integer takes when wrapped into the `i32` range
/// (the `as i32` cast of a `u32` value).
pub open spec fn wrap_i32(x: int) -> int {
    as_i32(x as u32)
}

/// Rust's integer division, which truncates toward zero.
pub open spec fn trunc_div(a: int, b: int) -> int
    recommends
        b > 0,
{
    if a >= 0 {
        a / b
    } else {
        -((-a) / b)
    }
}

/// Reinterpret a `u32` as an `i32`, as the `as` cast does.
pub fn to_i32(x: u32) -> (r: i32)
    ensures
        r == as_i32(x),
{
    let r = #[verifier::truncate] (x as i32);
    assert(r == as_i32(x)) by (bit_vector)
        requires
            r == x as i32,
    ;
    r
}

/// Padding specification for all four sides.
#[derive(Debug, Clone, Copy, PartialEq, Eq, Structural)]
pub struct Padding {
    /// Top padding in pixels.
    pub top: u16,
    /// Right padding in pixels.
    pub right: u16,
    /// Bottom padding in pixels.
    pub bottom: u16,
    /// Left padding in pixels.
    pub left: u16,
}

impl Padding {
    /// Zero padding on all sides.
    pub open spec fn zero_spec() -> Padding {
        Padding { top: 0, right: 0, bottom: 0, left: 0 }
    }

    /// Zero padding on all sides.
    pub fn zero() -> (r: Self)
        ensures
            r == Self::zero_spec(),
    {
        Padding { top: 0, right: 0, bottom: 0, left: 0 }
    }

    /// Create uniform padding on all sides.
    pub fn uniform(p: u16) -> (r: Self)
        ensures
            r == (Padding { top: p, right: p, bottom: p, left: p }),
    {
        Padding { top: p, right: p, bottom: p, left: p }
    }

    /// Create symmetric padding (horizontal and vertical).
    pub fn symmetric(h: u16, v: u16) -> (r: Self)
        ensures
            r == (Padding { top: v, right: h, bottom: v, left: h }),
    {
        Padding { top: v, right: h, bottom: v, left: h }
    }

    /// Create padding with individual side values.
    pub fn new(top: u16, right: u16, bottom: u16, left: u16) -> (r: Self)
        ensures
            r == (Padding { top, right, bottom, left }),
    {
        Padding { top, right, bottom, left }
    }

    /// Total horizontal padding (left + right).
    pub open spec fn horizontal_spec(self) -> nat {
        (self.left + self.right) as nat
    }

    /// Total vertical padding (top + bottom).
    pub open spec fn vertical_spec(self) -> nat {
        (self.top + self.bottom) as nat
    }

    /// Compute the inner rectangle after applying padding.
    ///
    /// The origin moves right and down by the left and top padding; the
    /// size shrinks by the total padding, stopping at zero.
    pub fn inner_rect(&self, x: i32, y: i32, w: u32, h: u32) -> (r: (i32, i32, u32, u32))
        requires
            x + self.left <= i32::MAX,
            y + self.top <= i32::MAX,
        ensures
            r.0 == x + self.left,
            r.1 == y + self.top,
            r.2 == sat_sub(w as int, self.horizontal_spec() as int),
            r.3 == sat_sub(h as int, self.vertical_spec() as int),
    {
        (
            x + self.left as i32,
            y + self.top as i32,
            w.saturating_sub(self.left as u32 + self.right as u32),
            h.saturating_sub(self.top as u32 + self.bottom as u32),
        )
    }

    /// Total horizontal padding (left + right).
    pub fn horizontal(&self) -> (r: u32)
        ensures
            r == self.horizontal_spec(),
    {
        self.left as u32 + self.right as u32
    }

    /// Total vertical padding (top + bottom).
    pub fn vertical(&self) -> (r: u32)
        ensures
            r == self.vertical_spec(),
    {
        self.top as u32 + self.bottom as u32
    }
}

/// Subtraction that stops at zero.
pub open spec fn sat_sub(a: int, b: int) -> int {
    if a >= b {
        a - b
    } else {
        0
    }
}

/// Centered offset of a child of size `child_size` inside a parent of size
/// `parent_size`, both read as `i32` the way the cast reads them.
pub open spec fn center_spec(parent_size: u32, child_size: u32) -> int {
    let diff = as_i32(parent_size) - as_i32(child_size);
    if diff <= 0 {
        0
    } else {
        (diff + 1) / 2
    }
}

/// Whether `center(parent_size, child_size)` stays inside `i32` arithmetic.
pub open spec fn center_in_range(parent_size: u32, child_size: u32) -> bool {
    i32::MIN <= as_i32(parent_size) - as_i32(child_size) < i32::MAX
}

/// Compute centered position of a child within a parent.
///
/// Uses round-up division so that on odd remainders the child is biased
/// toward the visual center rather than the top-left edge.
pub fn center(parent_size: u32, child_size: u32) -> (r: i32)
    requires
        center_in_range(parent_size, child_size),
    ensures
        r == center_spec(parent_size, child_size),
{
    let diff = to_i32(parent_size) - to_i32(child_size);
    if diff <= 0 {
        return 0;
    }
    (diff + 1) / 2
}

/// Vertical text offset within a row of the given height.
pub open spec fn center_text_y_spec(height: u32, font_size: u16, ascent: u32) -> int {
    trunc_div(as_i32(height) - font_size, 2) + as_i32(ascent)
}

/// Compute vertical center for text within a given height.
pub fn center_text_y(height: u32, font_size: u16, ascent: u32) -> (r: i32)
    requires
        i32::MIN <= as_i32(height) - font_size,
        i32::MIN <= center_text_y_spec(height, font_size, ascent) <= i32::MAX,
    ensures
        r == center_text_y_spec(height, font_size, ascent),
{
    let text_h = font_size as i32;
    let d = to_i32(height) - text_h;
    let half = d / 2;
    assert(half == trunc_div(d as int, 2));
    half + to_i32(ascent)
}

/// Size of each of `n` items laid out across `total` pixels with `gap`
/// pixels between neighbours.
pub open spec fn distribute_size(total: u32, n: u32, gap: u32) -> int {
    if n == 0 {
        0
    } else {
        sat_sub(total as int, gap * (n - 1)) / (n as int)
    }
}

/// Whether `distribute(total, n, gap)` stays inside `u32` arithmetic.
pub open spec fn distribute_in_range(total: u32, n: u32, gap: u32) -> bool {
    &&& n > 0 ==> gap * (n - 1) <= u32::MAX
    &&& n > 0 ==> distribute_size(total, n, gap) + gap <= u32::MAX
    &&& n > 0 ==> (n - 1) * (distribute_size(total, n, gap) + gap) <= u32::MAX
}

/// Distribute `n` items evenly across `total` pixels with `gap` pixels between.
///
/// Returns `(item_size, positions)`: item `i` starts at
/// `i * (item_size + gap)`, read as an `i32`.
pub fn distribute(total: u32, n: u32, gap: u32) -> (r: (u32, Vec<i32>))
    requires
        distribute_in_range(total, n, gap),
    ensures
        r.0 == distribute_size(total, n, gap),
        r.1@.len() == n,
        forall|i: int| 0 <= i < n ==> #[trigger] r.1@[i] == wrap_i32(i * (r.0 + gap)),
{
    if n == 0 {
        return (0, Vec::new());
    }
    let total_gap = gap * (n - 1);
    let item_size = total.saturating_sub(total_gap) / n;
    let mut positions: Vec<i32> = Vec::new();
    let mut i: u32 = 0;
    while i < n
        invariant
            0 < n,
            i <= n,
            item_size == distribute_size(total, n, gap),
            (n - 1) * (item_size + gap) <= u32::MAX,
            item_size + gap <= u32::MAX,
            positions@.len() == i,
            forall|k: int| 0 <= k < i ==> #[trigger] positions@[k] == wrap_i32(k * (item_size + gap)),
        decreases n - i,
    {
        assert(i * (item_size + gap) <= (n - 1) * (item_size + gap)) by (nonlinear_arith)
            requires
                i <= n - 1,
                item_size + gap >= 0,
        ;
        let p: u32 = i * (item_size + gap);
        positions.push(to_i32(p));
        i = i + 1;
    }
    (item_size, positions)
}

/// Horizontal alignment.
#[derive(Debug, Clone, Copy, PartialEq, Eq, Structural)]
pub enum HAlign {
    /// Align to the left edge.
    Left,
    /// Align to the center.
    Center,
    /// Align to the right edge.
    Right,
}

/// Vertical alignment.
#[derive(Debug, Clone, Copy, PartialEq, Eq, Structural)]
pub enum VAlign {
    /// Align to the top edge.
    Top,
    /// Align to the center.
    Center,
    /// Align to the bottom edge.
    Bottom,
}

/// Offset of a child flush with the far edge of its container (never negative).
pub open spec fn far_edge_spec(container: u32, child: u32) -> int {
    let d = as_i32(container) - as_i32(child);
    if d > 0 {
        d
    } else {
        0
    }
}

/// Offset for horizontal alignment.
pub open spec fn align_x_spec(container_w: u32, child_w: u32, align: HAlign) -> int {
    match align {
        HAlign::Left => 0,
        HAlign::Center => center_spec(container_w, child_w),
        HAlign::Right => far_edge_spec(container_w, child_w),
    }
}

/// Offset for vertical alignment.
pub open spec fn align_y_spec(container_h: u32, child_h: u32, align: VAlign) -> int {
    match align {
        VAlign::Top => 0,
        VAlign::Center => center_spec(container_h, child_h),
        VAlign::Bottom => far_edge_spec(container_h, child_h),
    }
}

/// Compute x position for horizontal alignment.
pub fn align_x(container_w: u32, child_w: u32, align: HAlign) -> (r: i32)
    requires
        align != HAlign::Left ==> center_in_range(container_w, child_w),
    ensures
        r == align_x_spec(container_w, child_w, align),
{
    match align {
        HAlign::Left => 0,
        HAlign::Center => center(container_w, child_w),
        HAlign::Right => {
            let d = to_i32(container_w) - to_i32(child_w);
            if d > 0 {
                d
            } else {
                0
            }
        },
    }
}

/// Compute y position for vertical alignment.
pub fn align_y(container_h: u32, child_h: u32, align: VAlign) -> (r: i32)
    requires
        align != VAlign::Top ==> center_in_range(container_h, child_h),
    ensures
        r == align_y_spec(container_h, child_h, align),
{
    match align {
        VAlign::Top => 0,
        VAlign::Center => center(container_h, child_h),
        VAlign::Bottom => {
            let d = to_i32(container_h) - to_i32(child_h);
            if d > 0 {
                d
            } else {
                0
            }
        },
    }
}

/// Centering never places a child before the parent's origin, and a child
/// that fits is placed so that it stays inside the parent.
pub proof fn lemma_center_inside(parent_size: u32, child_size: u32)
    requires
        parent_size <= i32::MAX,
        child_size <= parent_size,
    ensures
        0 <= center_spec(parent_size, child_size),
        center_spec(parent_size, child_size) + child_size <= parent_size,
{
}

// ---------------------------------------------------------------------------
// Measure cache
// ---------------------------------------------------------------------------

/// A single cached measurement together with the generation it was stored in.
#[derive(Debug, Clone, Copy, PartialEq, Eq)]
pub struct MeasureCacheEntry {
    /// Generation the measurement was taken in.
    pub generation: u64,
    /// Measured `(width, height)`.
    pub size: (u32, u32),
}

/// The cache key of a `(widget_id, available_width)` pair.
pub open spec fn measure_key(widget_id: u64, available_w: u32) -> u128 {
    (widget_id as int * 0x1_0000_0000 + available_w as int) as u128
}

/// Opt-in cache for widget measurement results.
///
/// Entries are keyed by `(widget_id, available_width)`. Call
/// [`MeasureCache::next_generation`] once per frame: entries from an older
/// generation are stale and are recomputed on the next lookup.
pub struct MeasureCache {
    /// Current generation counter.
    pub generation: u64,
    entries: HashMap<u128, MeasureCacheEntry>,
}

impl MeasureCache {
    /// The current generation counter.
    pub closed spec fn current_generation(&self) -> u64 {
        self.generation
    }

    /// The stored entries, by key.
    pub closed spec fn entries_view(&self) -> Map<u128, MeasureCacheEntry> {
        self.entries@
    }

    /// The size a lookup of `(widget_id, available_w)` hits in the current
    /// generation, if any.
    pub open spec fn cached(&self, widget_id: u64, available_w: u32) -> Option<(u32, u32)> {
        let key = measure_key(widget_id, available_w);
        if self.entries_view().contains_key(key) && self.entries_view()[key].generation
            == self.current_generation() {
            Some(self.entries_view()[key].size)
        } else {
            None
        }
    }

    /// Number of stored entries (including stale ones).
    pub open spec fn len_spec(&self) -> nat {
        self.entries_view().dom().len()
    }

    /// Create an empty cache.
    pub fn new() -> (r: Self)
        ensures
            r.current_generation() == 0,
            r.entries_view() == Map::<u128, MeasureCacheEntry>::empty(),
    {
        MeasureCache { generation: 0, entries: HashMap::new() }
    }

    /// Advance the generation counter (wrapping at `u64::MAX`).
    pub fn next_generation(&mut self)
        ensures
            final(self).current_generation() == (if old(self).current_generation() == u64::MAX {
                0
            } else {
                old(self).current_generation() + 1
            }),
            final(self).entries_view() == old(self).entries_view(),
    {
        self.generation = self.generation.wrapping_add(1);
    }

    /// Return the current generation counter.
    pub fn generation(&self) -> (r: u64)
        ensures
            r == self.current_generation(),
    {
        self.generation
    }

    fn make_key(widget_id: u64, available_w: u32) -> (k: u128)
        ensures
            k == measure_key(widget_id, available_w),
    {
        (widget_id as u128) * 0x1_0000_0000 + (available_w as u128)
    }

    /// Return a cached size or compute it via the closure, caching the result.
    ///
    /// On a hit in the current generation the cached size is returned and the
    /// closure is not called; otherwise the closure's result is stored under
    /// the key with the current generation and returned.
    pub fn get_or_measure<F: FnOnce() -> (u32, u32)>(
        &mut self,
        widget_id: u64,
        available_w: u32,
        measure_fn: F,
    ) -> (r: (u32, u32))
        requires
            old(self).cached(widget_id, available_w) is None ==> measure_fn.requires(()),
        ensures
            final(self).current_generation() == old(self).current_generation(),
            match old(self).cached(widget_id, available_w) {
                Some(size) => {
                    &&& r == size
                    &&& final(self).entries_view() == old(self).entries_view()
                },
                None => {
                    &&& measure_fn.ensures((), r)
                    &&& final(self).entries_view() == old(self).entries_view().insert(
                        measure_key(widget_id, available_w),
                        MeasureCacheEntry { generation: old(self).current_generation(), size: r },
                    )
                },
            },
    {
        let key = Self::make_key(widget_id, available_w);
        assert(obeys_key_model::<u128>());
        match self.entries.get(&key) {
            Some(entry) => {
                if entry.generation == self.generation {
                    return entry.size;
                }
            },
            None => {},
        }
        let size = measure_fn();
        self.entries.insert(key, MeasureCacheEntry { generation: self.generation, size });
        size
    }

    /// Remove all cached entries.
    pub fn clear(&mut self)
        ensures
            final(self).current_generation() == old(self).current_generation(),
            final(self).entries_view() == Map::<u128, MeasureCacheEntry>::empty(),
    {
        self.entries.clear();
    }

    /// Number of entries currently stored (including stale ones).
    pub fn len(&self) -> (r: usize)
        ensures
            r == self.len_spec(),
    {
        assert(obeys_key_model::<u128>());
        self.entries.len()
    }

    /// Whether the cache contains zero entries.
    pub fn is_empty(&self) -> (r: bool)
        ensures
            r == (self.len_spec() == 0),
    {
        assert(obeys_key_model::<u128>());
        self.entries.len() == 0
    }
}

impl Default for MeasureCache {
    fn default() -> (r: Self)
        ensures
            r.current_generation() == 0,
            r.entries_view() == Map::<u128, MeasureCacheEntry>::empty(),
    {
        Self::new()
    }
}

/// A value that can report its preferred size for a given space.
pub trait Widget {
    /// Preferred `(width, height)` within the available space.
    fn measure(&self, available_w: u32, available_h: u32) -> (u32, u32);
}

/// Measure a widget through the cache.
///
/// `widget_id` must uniquely identify `widget` in the current layout.
pub fn cached_measure<W: Widget>(
    cache: &mut MeasureCache,
    widget_id: u64,
    widget: &W,
    available_w: u32,
    available_h: u32,
) -> (r: (u32, u32))
    ensures
        final(cache).current_generation() == old(cache).current_generation(),
        match old(cache).cached(widget_id, available_w) {
            Some(size) => {
                &&& r == size
                &&& final(cache).entries_view() == old(cache).entries_view()
            },
            None => final(cache).entries_view() == old(cache).entries_view().insert(
                measure_key(widget_id, available_w),
                MeasureCacheEntry { generation: old(cache).current_generation(), size: r },
            ),
        },
{
    cache.get_or_measure(widget_id, available_w, || widget.measure(available_w, available_h))
}

/// A size stored in the current generation is what the next lookup of the
/// same key returns, for as long as the generation does not change.
pub proof fn lemma_cache_hit_after_store(
    m: Map<u128, MeasureCacheEntry>,
    generation: u64,
    widget_id: u64,
    available_w: u32,
    size: (u32, u32),
)
    ensures
        ({
            let key = measure_key(widget_id, available_w);
            let m2 = m.insert(key, MeasureCacheEntry { generation, size });
            m2.contains_key(key) && m2[key].generation == generation && m2[key].size == size
        }),
{
}

/// Distinct `(widget_id, available_width)` pairs never share a cache key.
pub proof fn lemma_measure_key_injective(id1: u64, w1: u32, id2: u64, w2: u32)
    requires
        measure_key(id1, w1) == measure_key(id2, w2),
    ensures
        id1 == id2,
        w1 == w2,
{
    assert(id1 * 0x1_0000_0000 + w1 == id2 * 0x1_0000_0000 + w2) by (nonlinear_arith)
        requires
            measure_key(id1, w1) == measure_key(id2, w2),
            0 <= id1 * 0x1_0000_0000 + w1 <= u128::MAX,
            0 <= id2 * 0x1_0000_0000 + w2 <= u128::MAX,
    ;
    assert(id1 == id2 && w1 == w2) by (nonlinear_arith)
        requires
            id1 * 0x1_0000_0000 + w1 == id2 * 0x1_0000_0000 + w2,
            0 <= w1 < 0x1_0000_0000,
            0 <= w2 < 0x1_0000_0000,
    ;
}

} // verus!
