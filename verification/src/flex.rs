//! Lightweight flex and grid layout helpers.
//!
//! These compute pixel positions from declarative layout specs. Apps describe
//! layout declaratively; the library computes pixel positions.
use crate::layout::{
    align_y, align_y_spec, as_i32, sat_sub, to_i32, wrap_i32, HAlign, Padding, VAlign,
};
use crate::sums::{all_nonneg, lemma_sum_prefix_bounds, lemma_sum_take_step, sum_of};
use vstd::prelude::*;

verus! {

/// Direction of flex layout.
#[derive(Debug, Clone, Copy, PartialEq, Eq, Structural)]
pub enum FlexDirection {
    /// Horizontal layout (left to right).
    Row,
    /// Vertical layout (top to bottom).
    Column,
}

/// How a child is sized along the main axis.
///
/// A size given as a share of the parent is resolved to `Fixed` pixels
/// before layout (see the crate's application layer).
#[derive(Debug, Clone, Copy, PartialEq, Eq, Structural)]
pub enum FlexSize {
    /// Exact pixel size.
    Fixed(u32),
    /// Flex weight (like CSS flex-grow). A child with weight 2 gets twice
    /// the remaining space of a child with weight 1.
    Flex(u32),
}

/// A child in a flex container.
#[derive(Debug, Clone, Copy, PartialEq, Eq, Structural)]
pub struct FlexChild {
    /// How this child is sized along the main axis.
    pub size: FlexSize,
    /// Cross-axis override for this child.
    pub align_self: Option<VAlign>,
    /// Margin around this child.
    pub margin: Padding,
}

impl FlexChild {
    /// Create a child with fixed pixel size.
    pub fn fixed(size: u32) -> (r: Self)
        ensures
            r.size == FlexSize::Fixed(size),
            r.align_self.is_none(),
            r.margin == Padding::zero_spec(),
    {
        FlexChild { size: FlexSize::Fixed(size), align_self: None, margin: Padding::zero() }
    }

    /// Create a child that fills remaining space with given weight.
    pub fn flex(weight: u32) -> (r: Self)
        ensures
            r.size == FlexSize::Flex(weight),
            r.align_self.is_none(),
            r.margin == Padding::zero_spec(),
    {
        FlexChild { size: FlexSize::Flex(weight), align_self: None, margin: Padding::zero() }
    }

    /// Add margin to this child.
    pub fn with_margin(self, margin: Padding) -> (r: Self)
        ensures
            r == (FlexChild { margin, ..self }),
    {
        FlexChild { margin, ..self }
    }

    /// Set cross-axis alignment for this child.
    pub fn with_align(self, align: VAlign) -> (r: Self)
        ensures
            r == (FlexChild { align_self: Some(align), ..self }),
    {
        FlexChild { align_self: Some(align), ..self }
    }
}

/// Computed position for a child.
#[derive(Debug, Clone, Copy, PartialEq, Eq, Structural)]
pub struct ComputedRect {
    /// X coordinate.
    pub x: i32,
    /// Y coordinate.
    pub y: i32,
    /// Width in pixels.
    pub w: u32,
    /// Height in pixels.
    pub h: u32,
}

/// A flex container that computes child positions along a main axis.
#[derive(Debug, Clone, Copy, PartialEq, Eq, Structural)]
pub struct FlexLayout {
    /// Layout direction (row or column).
    pub direction: FlexDirection,
    /// Gap between items in pixels.
    pub gap: u32,
    /// Cross-axis default alignment.
    pub align_items: VAlign,
    /// Main-axis alignment (distributes remaining space).
    pub justify: HAlign,
}

// ---------------------------------------------------------------------------
// The model of one layout pass.
// ---------------------------------------------------------------------------
/// Whether the main axis is horizontal.
pub open spec fn flex_is_row(lay: FlexLayout) -> bool {
    lay.direction == FlexDirection::Row
}

/// Margin of a child along the main axis (both sides together).
pub open spec fn main_margin(c: FlexChild, is_row: bool) -> int {
    if is_row {
        c.margin.horizontal_spec() as int
    } else {
        c.margin.vertical_spec() as int
    }
}

/// Margin of a child across the main axis (both sides together).
pub open spec fn cross_margin(c: FlexChild, is_row: bool) -> int {
    if is_row {
        c.margin.vertical_spec() as int
    } else {
        c.margin.horizontal_spec() as int
    }
}

/// Margin before a child along the main axis.
pub open spec fn lead_margin(c: FlexChild, is_row: bool) -> int {
    if is_row {
        c.margin.left as int
    } else {
        c.margin.top as int
    }
}

/// Margin after a child along the main axis.
pub open spec fn trail_margin(c: FlexChild, is_row: bool) -> int {
    if is_row {
        c.margin.right as int
    } else {
        c.margin.bottom as int
    }
}

/// Margin before a child across the main axis.
pub open spec fn cross_lead(c: FlexChild, is_row: bool) -> int {
    if is_row {
        c.margin.top as int
    } else {
        c.margin.left as int
    }
}

/// Main-axis space a child claims before flex space is shared out: its
/// fixed size (zero for flex children) and its margins.
pub open spec fn demand(c: FlexChild, is_row: bool) -> int {
    match c.size {
        FlexSize::Fixed(px) => px + main_margin(c, is_row),
        FlexSize::Flex(_) => main_margin(c, is_row),
    }
}

/// Flex weight of a child (zero for fixed children).
pub open spec fn weight(c: FlexChild) -> int {
    match c.size {
        FlexSize::Fixed(_) => 0,
        FlexSize::Flex(w) => w as int,
    }
}

/// The demands of all children.
pub open spec fn demands(cs: Seq<FlexChild>, is_row: bool) -> Seq<int> {
    cs.map_values(|c: FlexChild| demand(c, is_row))
}

/// The weights of all children.
pub open spec fn weights(cs: Seq<FlexChild>) -> Seq<int> {
    cs.map_values(|c: FlexChild| weight(c))
}

/// The main-axis margins of all children.
pub open spec fn main_margins(cs: Seq<FlexChild>, is_row: bool) -> Seq<int> {
    cs.map_values(|c: FlexChild| main_margin(c, is_row))
}

/// Total gap between `n` children.
pub open spec fn gap_total(gap: u32, n: nat) -> int {
    if n == 0 {
        0
    } else {
        gap * (((n - 1) as int) as u32)
    }
}

/// Main-axis extent of the parent.
pub open spec fn flex_main_total(lay: FlexLayout, pw: u32, ph: u32) -> u32 {
    if flex_is_row(lay) {
        pw
    } else {
        ph
    }
}

/// Cross-axis extent of the parent.
pub open spec fn flex_cross_total(lay: FlexLayout, pw: u32, ph: u32) -> u32 {
    if flex_is_row(lay) {
        ph
    } else {
        pw
    }
}

/// Space claimed before flex children are sized: gaps, fixed sizes, margins.
pub open spec fn flex_consumed(lay: FlexLayout, cs: Seq<FlexChild>) -> int {
    gap_total(lay.gap, cs.len()) + sum_of(demands(cs, flex_is_row(lay)))
}

/// Space left over for the flex children.
pub open spec fn flex_remaining(lay: FlexLayout, pw: u32, ph: u32, cs: Seq<FlexChild>) -> int {
    sat_sub(flex_main_total(lay, pw, ph) as int, flex_consumed(lay, cs))
}

/// Main-axis size of a child, given the space left over and the total weight.
pub open spec fn child_size(c: FlexChild, remaining: int, total_weight: int) -> int {
    match c.size {
        FlexSize::Fixed(px) => px as int,
        FlexSize::Flex(w) => if total_weight == 0 {
            0
        } else {
            remaining * w / total_weight
        },
    }
}

/// Main-axis sizes of all children in one layout pass.
pub open spec fn flex_sizes(lay: FlexLayout, pw: u32, ph: u32, cs: Seq<FlexChild>) -> Seq<int> {
    let rem = flex_remaining(lay, pw, ph, cs);
    let tw = sum_of(weights(cs));
    cs.map_values(|c: FlexChild| child_size(c, rem, tw))
}

/// Main-axis space used by all children, their margins and the gaps.
pub open spec fn flex_used(lay: FlexLayout, pw: u32, ph: u32, cs: Seq<FlexChild>) -> int {
    sum_of(flex_sizes(lay, pw, ph, cs)) + gap_total(lay.gap, cs.len()) + sum_of(
        main_margins(cs, flex_is_row(lay)),
    )
}

/// Main-axis offset of the first child, from the justification.
pub open spec fn flex_justify(lay: FlexLayout, pw: u32, ph: u32, cs: Seq<FlexChild>) -> int {
    let free = sat_sub(flex_main_total(lay, pw, ph) as int, flex_used(lay, pw, ph, cs));
    match lay.justify {
        HAlign::Left => 0,
        HAlign::Center => free / 2,
        HAlign::Right => free,
    }
}

/// How far the cursor advances past child `j`, as the `i32` arithmetic
/// computes it: its margins, its size and one gap.
pub open spec fn flex_steps(lay: FlexLayout, pw: u32, ph: u32, cs: Seq<FlexChild>) -> Seq<int> {
    let is_row = flex_is_row(lay);
    let sizes = flex_sizes(lay, pw, ph, cs);
    Seq::new(
        cs.len(),
        |j: int|
            lead_margin(cs[j], is_row) + wrap_i32(sizes[j]) + trail_margin(cs[j], is_row)
                + wrap_i32(lay.gap as int),
    )
}

/// Main-axis offset (from the parent's origin) at which child `i` starts.
pub open spec fn flex_place(lay: FlexLayout, pw: u32, ph: u32, cs: Seq<FlexChild>, i: int) -> int {
    wrap_i32(flex_justify(lay, pw, ph, cs)) + sum_of(flex_steps(lay, pw, ph, cs).take(i))
        + lead_margin(cs[i], flex_is_row(lay))
}

/// The rectangle computed for child `i`.
pub open spec fn flex_rect(
    lay: FlexLayout,
    px: i32,
    py: i32,
    pw: u32,
    ph: u32,
    cs: Seq<FlexChild>,
    i: int,
) -> ComputedRect {
    let is_row = flex_is_row(lay);
    let size = flex_sizes(lay, pw, ph, cs)[i];
    let cross = sat_sub(flex_cross_total(lay, pw, ph) as int, cross_margin(cs[i], is_row));
    let main_pos = flex_place(lay, pw, ph, cs, i);
    let cross_pos = cross_lead(cs[i], is_row);
    if is_row {
        ComputedRect { x: (px + main_pos) as i32, y: (py + cross_pos) as i32, w: size as u32, h: cross as u32 }
    } else {
        ComputedRect { x: (px + cross_pos) as i32, y: (py + main_pos) as i32, w: cross as u32, h: size as u32 }
    }
}

/// Whether placing child `i` stays inside `i32` arithmetic.
pub open spec fn flex_step_fits(
    lay: FlexLayout,
    px: i32,
    py: i32,
    pw: u32,
    ph: u32,
    cs: Seq<FlexChild>,
    i: int,
) -> bool {
    let is_row = flex_is_row(lay);
    let place = flex_place(lay, pw, ph, cs, i);
    let main_origin = if is_row {
        px as int
    } else {
        py as int
    };
    let cross_origin = if is_row {
        py as int
    } else {
        px as int
    };
    let sized = wrap_i32(flex_sizes(lay, pw, ph, cs)[i]) + trail_margin(cs[i], is_row);
    let step = sized + wrap_i32(lay.gap as int);
    &&& i32::MIN <= place <= i32::MAX
    &&& i32::MIN <= main_origin + place <= i32::MAX
    &&& i32::MIN <= sized <= i32::MAX
    &&& i32::MIN <= step <= i32::MAX
    &&& i32::MIN <= place + step <= i32::MAX
    &&& cross_origin + cross_lead(cs[i], is_row) <= i32::MAX
}

/// Whether one layout pass stays inside the integer ranges it computes in.
pub open spec fn flex_fits(
    lay: FlexLayout,
    px: i32,
    py: i32,
    pw: u32,
    ph: u32,
    cs: Seq<FlexChild>,
) -> bool {
    cs.len() > 0 ==> {
        &&& lay.gap * (((cs.len() - 1) as int) as u32) <= u32::MAX
        &&& flex_consumed(lay, cs) <= u32::MAX
        &&& sum_of(weights(cs)) <= u32::MAX
        &&& forall|i: int|
            0 <= i < cs.len() ==> flex_remaining(lay, pw, ph, cs) * #[trigger] weight(cs[i])
                <= u32::MAX
        &&& flex_used(lay, pw, ph, cs) <= u32::MAX
        &&& forall|i: int| 0 <= i < cs.len() ==> #[trigger] flex_step_fits(lay, px, py, pw, ph, cs, i)
    }
}

proof fn lemma_nonneg_parts(lay: FlexLayout, pw: u32, ph: u32, cs: Seq<FlexChild>)
    ensures
        all_nonneg(demands(cs, flex_is_row(lay))),
        all_nonneg(weights(cs)),
        all_nonneg(main_margins(cs, flex_is_row(lay))),
        all_nonneg(flex_sizes(lay, pw, ph, cs)),
{
    let is_row = flex_is_row(lay);
    let rem = flex_remaining(lay, pw, ph, cs);
    let tw = sum_of(weights(cs));
    assert forall|i: int| 0 <= i < cs.len() implies 0 <= #[trigger] flex_sizes(
        lay,
        pw,
        ph,
        cs,
    )[i] by {
        match cs[i].size {
            FlexSize::Fixed(_) => {},
            FlexSize::Flex(w) => {
                if tw != 0 {
                    lemma_nonneg_parts_weights(cs);
                    vstd::arithmetic::div_mod::lemma_div_pos_is_pos(rem * w, tw);
                    assert(rem * w >= 0) by (nonlinear_arith)
                        requires
                            rem >= 0,
                            w >= 0,
                    ;
                    if tw > 0 {
                        vstd::arithmetic::div_mod::lemma_div_pos_is_pos(rem * w, tw);
                    }
                }
            },
        }
    }
    lemma_nonneg_parts_weights(cs);
}

proof fn lemma_nonneg_parts_weights(cs: Seq<FlexChild>)
    ensures
        all_nonneg(weights(cs)),
        sum_of(weights(cs)) >= 0,
{
    crate::sums::lemma_sum_nonneg(weights(cs));
}

impl Default for FlexLayout {
    fn default() -> (r: Self)
        ensures
            r == FlexLayout::default_spec(),
    {
        FlexLayout::row()
    }
}

impl FlexLayout {
    /// A horizontal flex layout with no gap, top-aligned, left-justified.
    pub open spec fn default_spec() -> FlexLayout {
        FlexLayout {
            direction: FlexDirection::Row,
            gap: 0,
            align_items: VAlign::Top,
            justify: HAlign::Left,
        }
    }

    /// Create a horizontal flex layout.
    pub fn row() -> (r: Self)
        ensures
            r == Self::default_spec(),
    {
        FlexLayout {
            direction: FlexDirection::Row,
            gap: 0,
            align_items: VAlign::Top,
            justify: HAlign::Left,
        }
    }

    /// Create a vertical flex layout.
    pub fn column() -> (r: Self)
        ensures
            r == (FlexLayout { direction: FlexDirection::Column, ..Self::default_spec() }),
    {
        FlexLayout {
            direction: FlexDirection::Column,
            gap: 0,
            align_items: VAlign::Top,
            justify: HAlign::Left,
        }
    }

    /// Set gap between items.
    pub fn with_gap(self, gap: u32) -> (r: Self)
        ensures
            r == (FlexLayout { gap, ..self }),
    {
        FlexLayout { gap, ..self }
    }

    /// Set cross-axis alignment for all items.
    pub fn with_align_items(self, align: VAlign) -> (r: Self)
        ensures
            r == (FlexLayout { align_items: align, ..self }),
    {
        FlexLayout { align_items: align, ..self }
    }

    /// Set main-axis justification.
    pub fn with_justify(self, justify: HAlign) -> (r: Self)
        ensures
            r == (FlexLayout { justify, ..self }),
    {
        FlexLayout { justify, ..self }
    }

    /// Given parent bounds and child specs, compute rects for each child.
    ///
    /// Fixed children keep their size; the space left after gaps, fixed
    /// sizes and margins is shared among flex children in proportion to
    /// their weights (rounding down). Children follow one another along the
    /// main axis, offset by the justification, and fill the cross axis
    /// inside their margins.
    #[verifier::rlimit(60)]
    pub fn compute(
        &self,
        parent_x: i32,
        parent_y: i32,
        parent_w: u32,
        parent_h: u32,
        children: &[FlexChild],
    ) -> (r: Vec<ComputedRect>)
        requires
            flex_fits(*self, parent_x, parent_y, parent_w, parent_h, children@),
        ensures
            r@.len() == children@.len(),
            forall|i: int|
                0 <= i < children@.len() ==> #[trigger] r@[i] == flex_rect(
                    *self,
                    parent_x,
                    parent_y,
                    parent_w,
                    parent_h,
                    children@,
                    i,
                ),
    {
        let n = children.len();
        if n == 0 {
            return Vec::new();
        }
        let ghost cs = children@;
        let ghost lay = *self;
        let is_row = match self.direction {
            FlexDirection::Row => true,
            FlexDirection::Column => false,
        };
        assert(is_row == flex_is_row(lay));
        let main_total = if is_row {
            parent_w
        } else {
            parent_h
        };
        let cross_total = if is_row {
            parent_h
        } else {
            parent_w
        };
        let count_less_one = #[verifier::truncate] ((n - 1) as u32);
        let total_gap = self.gap * count_less_one;
        assert(total_gap == gap_total(self.gap, cs.len()));

        // First pass: fixed sizes, margins and the total flex weight.
        let ghost ds = demands(cs, is_row);
        let ghost ws = weights(cs);
        proof {
            lemma_nonneg_parts(lay, parent_w, parent_h, cs);
        }
        let mut sizes: Vec<u32> = Vec::new();
        let mut flex_total_weight: u32 = 0;
        let mut consumed: u32 = total_gap;
        let mut i: usize = 0;
        while i < n
            invariant
                n == cs.len(),
                cs == children@,
                lay == *self,
                is_row == flex_is_row(lay),
                ds == demands(cs, is_row),
                ws == weights(cs),
                all_nonneg(ds),
                all_nonneg(ws),
                0 <= i <= n,
                total_gap == gap_total(lay.gap, cs.len()),
                total_gap + sum_of(ds) <= u32::MAX,
                sum_of(ws) <= u32::MAX,
                consumed == total_gap + sum_of(ds.take(i as int)),
                flex_total_weight == sum_of(ws.take(i as int)),
                sizes@.len() == i,
                forall|j: int|
                    0 <= j < i ==> #[trigger] sizes@[j] == match cs[j].size {
                        FlexSize::Fixed(px) => px,
                        FlexSize::Flex(_) => 0u32,
                    },
            decreases n - i,
        {
            let child = &children[i];
            let margin_main = if is_row {
                child.margin.horizontal()
            } else {
                child.margin.vertical()
            };
            proof {
                lemma_sum_take_step(ds, i as int);
                lemma_sum_take_step(ws, i as int);
                lemma_sum_prefix_bounds(ds, i as int + 1);
                lemma_sum_prefix_bounds(ws, i as int + 1);
            }
            match child.size {
                FlexSize::Fixed(px) => {
                    sizes.push(px);
                    consumed = consumed + (px + margin_main);
                },
                FlexSize::Flex(w) => {
                    sizes.push(0);
                    flex_total_weight = flex_total_weight + w;
                    consumed = consumed + margin_main;
                },
            }
            i = i + 1;
        }
        proof {
            crate::sums::lemma_sum_take_all(ds);
            crate::sums::lemma_sum_take_all(ws);
        }
        assert(consumed == flex_consumed(lay, cs));
        assert(flex_total_weight == sum_of(weights(cs)));

        // Second pass: share the remaining space among flex children.
        let remaining = main_total.saturating_sub(consumed);
        let ghost final_sizes = flex_sizes(lay, parent_w, parent_h, cs);
        assert(remaining == flex_remaining(lay, parent_w, parent_h, cs));
        if flex_total_weight != 0 {
            let mut k: usize = 0;
            while k < n
                invariant
                    n == cs.len(),
                    cs == children@,
                    lay == *self,
                    0 <= k <= n,
                    flex_total_weight != 0,
                    flex_total_weight == sum_of(weights(cs)),
                    remaining == flex_remaining(lay, parent_w, parent_h, cs),
                    final_sizes == flex_sizes(lay, parent_w, parent_h, cs),
                    flex_fits(lay, parent_x, parent_y, parent_w, parent_h, cs),
                    sizes@.len() == n,
                    forall|j: int| 0 <= j < k ==> #[trigger] sizes@[j] == final_sizes[j],
                    forall|j: int|
                        k <= j < n ==> #[trigger] sizes@[j] == match cs[j].size {
                            FlexSize::Fixed(px) => px,
                            FlexSize::Flex(_) => 0u32,
                        },
                decreases n - k,
            {
                match children[k].size {
                    FlexSize::Flex(w) => {
                        assert(remaining * weight(cs[k as int]) <= u32::MAX);
                        let s = remaining * w / flex_total_weight;
                        sizes.set(k, s);
                    },
                    FlexSize::Fixed(_) => {},
                }
                k = k + 1;
            }
        } else {
            assert forall|j: int| 0 <= j < n implies #[trigger] sizes@[j] == final_sizes[j] by {}
        }
        assert(forall|j: int| 0 <= j < n ==> #[trigger] sizes@[j] == final_sizes[j]);

        // Main-axis offset for the justification.
        let ghost ms = main_margins(cs, is_row);
        let mut size_sum: u32 = 0;
        let mut margin_sum: u32 = 0;
        let mut k: usize = 0;
        proof {
            lemma_nonneg_parts(lay, parent_w, parent_h, cs);
            crate::sums::lemma_sum_nonneg(final_sizes);
            crate::sums::lemma_sum_nonneg(ms);
        }
        while k < n
            invariant
                n == cs.len(),
                cs == children@,
                lay == *self,
                is_row == flex_is_row(lay),
                0 <= k <= n,
                ms == main_margins(cs, is_row),
                final_sizes == flex_sizes(lay, parent_w, parent_h, cs),
                all_nonneg(final_sizes),
                all_nonneg(ms),
                sizes@.len() == n,
                forall|j: int| 0 <= j < n ==> #[trigger] sizes@[j] == final_sizes[j],
                sum_of(final_sizes) + total_gap + sum_of(ms) <= u32::MAX,
                total_gap >= 0,
                size_sum == sum_of(final_sizes.take(k as int)),
                margin_sum == sum_of(ms.take(k as int)),
            decreases n - k,
        {
            proof {
                lemma_sum_take_step(final_sizes, k as int);
                lemma_sum_take_step(ms, k as int);
                lemma_sum_prefix_bounds(final_sizes, k as int + 1);
                lemma_sum_prefix_bounds(ms, k as int + 1);
            }
            size_sum = size_sum + sizes[k];
            let child = &children[k];
            let mm = if is_row {
                child.margin.horizontal()
            } else {
                child.margin.vertical()
            };
            margin_sum = margin_sum + mm;
            k = k + 1;
        }
        proof {
            crate::sums::lemma_sum_take_all(final_sizes);
            crate::sums::lemma_sum_take_all(ms);
        }
        let total_used = size_sum + total_gap + margin_sum;
        assert(total_used == flex_used(lay, parent_w, parent_h, cs));
        let justify_offset = match self.justify {
            HAlign::Left => 0,
            HAlign::Center => main_total.saturating_sub(total_used) / 2,
            HAlign::Right => main_total.saturating_sub(total_used),
        };
        assert(justify_offset == flex_justify(lay, parent_w, parent_h, cs));

        // Third pass: the final rectangles.
        let ghost steps = flex_steps(lay, parent_w, parent_h, cs);
        let mut results: Vec<ComputedRect> = Vec::new();
        let mut cursor: i32 = to_i32(justify_offset);
        let mut i: usize = 0;
        while i < n
            invariant
                n == cs.len(),
                cs == children@,
                lay == *self,
                is_row == flex_is_row(lay),
                main_total == flex_main_total(lay, parent_w, parent_h),
                cross_total == flex_cross_total(lay, parent_w, parent_h),
                0 <= i <= n,
                final_sizes == flex_sizes(lay, parent_w, parent_h, cs),
                steps == flex_steps(lay, parent_w, parent_h, cs),
                sizes@.len() == n,
                forall|j: int| 0 <= j < n ==> #[trigger] sizes@[j] == final_sizes[j],
                flex_fits(lay, parent_x, parent_y, parent_w, parent_h, cs),
                cursor == wrap_i32(flex_justify(lay, parent_w, parent_h, cs)) + sum_of(
                    steps.take(i as int),
                ),
                results@.len() == i,
                forall|j: int|
                    0 <= j < i ==> #[trigger] results@[j] == flex_rect(
                        lay,
                        parent_x,
                        parent_y,
                        parent_w,
                        parent_h,
                        cs,
                        j,
                    ),
            decreases n - i,
        {
            let child = &children[i];
            let main_size = sizes[i];
            let align = match child.align_self {
                Some(a) => a,
                None => self.align_items,
            };
            assert(flex_step_fits(lay, parent_x, parent_y, parent_w, parent_h, cs, i as int));
            proof {
                lemma_sum_take_step(steps, i as int);
            }
            let margin_before: i32 = if is_row {
                child.margin.left as i32
            } else {
                child.margin.top as i32
            };
            let margin_after: i32 = if is_row {
                child.margin.right as i32
            } else {
                child.margin.bottom as i32
            };
            let cross_margin = if is_row {
                child.margin.vertical()
            } else {
                child.margin.horizontal()
            };
            let cross_avail = cross_total.saturating_sub(cross_margin);
            let base = align_y(cross_avail, cross_avail, align);
            assert(base == 0);
            let cross_offset = base + if is_row {
                child.margin.top as i32
            } else {
                child.margin.left as i32
            };
            cursor = cursor + margin_before;
            let rect = if is_row {
                ComputedRect {
                    x: parent_x + cursor,
                    y: parent_y + cross_offset,
                    w: main_size,
                    h: cross_avail,
                }
            } else {
                ComputedRect {
                    x: parent_x + cross_offset,
                    y: parent_y + cursor,
                    w: cross_avail,
                    h: main_size,
                }
            };
            results.push(rect);
            let sized = to_i32(main_size) + margin_after;
            let step = sized + to_i32(self.gap);
            cursor = cursor + step;
            i = i + 1;
        }
        results
    }
}

/// Children follow one another along the main axis: each child starts where
/// the previous one ends, plus the previous child's trailing margin, the gap
/// and its own leading margin (sizes and gap read as `i32`).
pub proof fn lemma_children_in_sequence(lay: FlexLayout, pw: u32, ph: u32, cs: Seq<FlexChild>, i: int)
    requires
        0 <= i,
        i + 1 < cs.len(),
    ensures
        flex_place(lay, pw, ph, cs, i + 1) == flex_place(lay, pw, ph, cs, i) + wrap_i32(
            flex_sizes(lay, pw, ph, cs)[i],
        ) + trail_margin(cs[i], flex_is_row(lay)) + wrap_i32(lay.gap as int) + lead_margin(
            cs[i + 1],
            flex_is_row(lay),
        ),
{
    lemma_sum_take_step(flex_steps(lay, pw, ph, cs), i);
}

/// With left justification the first child starts at its leading margin.
pub proof fn lemma_first_child_at_start(lay: FlexLayout, pw: u32, ph: u32, cs: Seq<FlexChild>)
    requires
        cs.len() > 0,
        lay.justify == HAlign::Left,
    ensures
        flex_place(lay, pw, ph, cs, 0) == lead_margin(cs[0], flex_is_row(lay)),
{
    assert(flex_steps(lay, pw, ph, cs).take(0) =~= Seq::<int>::empty());
    assert(wrap_i32(0) == 0) by (bit_vector);
}

/// A fixed child's main-axis size is its fixed size.
pub proof fn lemma_fixed_child_size(lay: FlexLayout, pw: u32, ph: u32, cs: Seq<FlexChild>, i: int)
    requires
        0 <= i < cs.len(),
        cs[i].size is Fixed,
    ensures
        flex_sizes(lay, pw, ph, cs)[i] == cs[i].size->Fixed_0,
{
}

/// A left-justified row of fixed-size children without margins lays them
/// out edge to edge, `gap` apart: the first starts at the container's left
/// edge, each is as wide as its fixed size and as tall as the container, and
/// each next one starts at the previous one's left edge plus its width plus
/// the gap (sizes and gap within `i32`).
pub proof fn lemma_fixed_row_positions(
    lay: FlexLayout,
    px: i32,
    py: i32,
    pw: u32,
    ph: u32,
    cs: Seq<FlexChild>,
    i: int,
)
    requires
        lay.direction == FlexDirection::Row,
        lay.justify == HAlign::Left,
        flex_fits(lay, px, py, pw, ph, cs),
        forall|j: int|
            0 <= j < cs.len() ==> {
                &&& #[trigger] cs[j].size is Fixed
                &&& cs[j].margin == (Padding { top: 0, right: 0, bottom: 0, left: 0 })
            },
        0 <= i < cs.len(),
        cs[i].size->Fixed_0 <= i32::MAX,
        lay.gap <= i32::MAX,
    ensures
        flex_rect(lay, px, py, pw, ph, cs, i).w == cs[i].size->Fixed_0,
        flex_rect(lay, px, py, pw, ph, cs, i).h == ph,
        flex_rect(lay, px, py, pw, ph, cs, i).y == py,
        i == 0 ==> flex_rect(lay, px, py, pw, ph, cs, i).x == px,
        i + 1 < cs.len() ==> flex_rect(lay, px, py, pw, ph, cs, i + 1).x == flex_rect(
            lay,
            px,
            py,
            pw,
            ph,
            cs,
            i,
        ).x + cs[i].size->Fixed_0 + lay.gap,
{
    let p = cs[i].size->Fixed_0;
    lemma_fixed_child_size(lay, pw, ph, cs, i);
    assert(flex_step_fits(lay, px, py, pw, ph, cs, i));
    assert(wrap_i32(p as int) == p);
    assert(wrap_i32(lay.gap as int) == lay.gap);
    if i == 0 {
        lemma_first_child_at_start(lay, pw, ph, cs);
    }
    if i + 1 < cs.len() {
        assert(cs[i + 1].size is Fixed);
        assert(flex_step_fits(lay, px, py, pw, ph, cs, i + 1));
        lemma_children_in_sequence(lay, pw, ph, cs, i);
    }
}

/// Floor division is superadditive: the parts of a shared-out total, each
/// rounded down, never add up to more than the total rounded down.
proof fn lemma_div_superadditive(a: int, b: int, t: int)
    requires
        a >= 0,
        b >= 0,
        t > 0,
    ensures
        a / t + b / t <= (a + b) / t,
{
    vstd::arithmetic::div_mod::lemma_fundamental_div_mod(a, t);
    vstd::arithmetic::div_mod::lemma_fundamental_div_mod(b, t);
    vstd::arithmetic::div_mod::lemma_fundamental_div_mod(a + b, t);
    let qa = a / t;
    let qb = b / t;
    let q = (a + b) / t;
    assert(qa + qb <= q) by (nonlinear_arith)
        requires
            a == t * qa + a % t,
            b == t * qb + b % t,
            a + b == t * q + (a + b) % t,
            0 <= a % t < t,
            0 <= b % t < t,
            0 <= (a + b) % t < t,
            t > 0,
    ;
}

/// The flex sizes of the children in `cs` (fixed children count zero).
pub open spec fn flex_share_sum(cs: Seq<FlexChild>, rem: int, tw: int) -> int
    decreases cs.len(),
{
    if cs.len() == 0 {
        0
    } else {
        flex_share_sum(cs.drop_last(), rem, tw) + match cs.last().size {
            FlexSize::Fixed(_) => 0,
            FlexSize::Flex(w) => rem * w / tw,
        }
    }
}

proof fn lemma_flex_share_bound(cs: Seq<FlexChild>, rem: int, tw: int)
    requires
        rem >= 0,
        tw > 0,
    ensures
        flex_share_sum(cs, rem, tw) <= rem * sum_of(weights(cs)) / tw,
    decreases cs.len(),
{
    if cs.len() > 0 {
        let init = cs.drop_last();
        lemma_flex_share_bound(init, rem, tw);
        assert(weights(cs).drop_last() =~= weights(init));
        crate::sums::lemma_sum_nonneg(weights(init));
        let w = weight(cs.last());
        let wi = sum_of(weights(init));
        assert(rem * wi >= 0 && rem * w >= 0) by (nonlinear_arith)
            requires
                rem >= 0,
                wi >= 0,
                w >= 0,
        ;
        lemma_div_superadditive(rem * wi, rem * w, tw);
        assert(rem * wi + rem * w == rem * (wi + w)) by (nonlinear_arith);
    }
}

/// The space shared out to flex children never exceeds the space left over
/// after gaps, fixed sizes and margins.
pub proof fn lemma_flex_shares_fit(lay: FlexLayout, pw: u32, ph: u32, cs: Seq<FlexChild>)
    requires
        sum_of(weights(cs)) > 0,
    ensures
        flex_share_sum(cs, flex_remaining(lay, pw, ph, cs), sum_of(weights(cs))) <= flex_remaining(
            lay,
            pw,
            ph,
            cs,
        ),
{
    let rem = flex_remaining(lay, pw, ph, cs);
    let tw = sum_of(weights(cs));
    lemma_flex_share_bound(cs, rem, tw);
    vstd::arithmetic::div_mod::lemma_div_by_multiple(rem, tw);
    assert(rem * tw / tw == rem) by {
        vstd::arithmetic::div_mod::lemma_div_by_multiple(rem, tw);
        assert(rem * tw == tw * rem) by (nonlinear_arith);
    }
}

// ---------------------------------------------------------------------------
// Grid layout
// ---------------------------------------------------------------------------
/// A grid layout helper that computes cell positions for a uniform grid.
#[derive(Debug, Clone, Copy, PartialEq, Eq, Structural)]
pub struct GridLayout {
    /// Number of columns.
    pub cols: u32,
    /// Gap between rows in pixels.
    pub row_gap: u32,
    /// Gap between columns in pixels.
    pub col_gap: u32,
    /// Padding around the grid.
    pub padding: Padding,
}

/// Number of rows needed for `total` items in `cols` columns (the item count
/// read as a `u32`, as the cast does).
pub open spec fn grid_rows(cols: u32, total: usize) -> int {
    let t = (total as int) as u32;
    if t % cols == 0 {
        (t / cols) as int
    } else {
        t / cols + 1
    }
}

/// With columns, a grid has no rows exactly when it has no items (for item
/// counts that fit in `u32`).
pub proof fn lemma_grid_rows_zero(cols: u32, total: usize)
    requires
        cols > 0,
        total <= u32::MAX,
    ensures
        (grid_rows(cols, total) == 0) == (total == 0),
{
    let t = (total as int) as u32;
    assert(t == total);
    if total > 0 && t % cols == 0 {
        assert(t / cols > 0) by (nonlinear_arith)
            requires
                t > 0,
                t % cols == 0,
                cols > 0,
        {
        }
    }
}

/// Width of each cell.
pub open spec fn grid_cell_w(g: GridLayout, pw: u32) -> int {
    sat_sub(sat_sub(pw as int, g.padding.horizontal_spec() as int), g.col_gap * (g.cols - 1))
        / (g.cols as int)
}

/// Height of each cell.
pub open spec fn grid_cell_h(g: GridLayout, ph: u32, total: usize) -> int {
    let rows = grid_rows(g.cols, total);
    sat_sub(sat_sub(ph as int, g.padding.vertical_spec() as int), g.row_gap * (rows - 1)) / rows
}

/// Horizontal offset of cell `index` inside the padded area, before the cast.
pub open spec fn grid_dx(g: GridLayout, pw: u32, index: usize) -> int {
    (((index as int) as u32) % g.cols) * (grid_cell_w(g, pw) + g.col_gap)
}

/// Vertical offset of cell `index` inside the padded area, before the cast.
pub open spec fn grid_dy(g: GridLayout, ph: u32, index: usize, total: usize) -> int {
    (((index as int) as u32) / g.cols) * (grid_cell_h(g, ph, total) + g.row_gap)
}

/// The rectangle of cell `index`, or `None` when the grid has no columns or
/// no rows.
pub open spec fn grid_cell_spec(
    g: GridLayout,
    index: usize,
    px: i32,
    py: i32,
    pw: u32,
    ph: u32,
    total: usize,
) -> Option<ComputedRect> {
    if g.cols == 0 || grid_rows(g.cols, total) == 0 {
        None
    } else {
        Some(
            ComputedRect {
                x: (px + g.padding.left + wrap_i32(grid_dx(g, pw, index))) as i32,
                y: (py + g.padding.top + wrap_i32(grid_dy(g, ph, index, total))) as i32,
                w: grid_cell_w(g, pw) as u32,
                h: grid_cell_h(g, ph, total) as u32,
            },
        )
    }
}

/// Whether computing cell `index` stays inside the integer ranges it uses.
pub open spec fn grid_fits(
    g: GridLayout,
    index: usize,
    px: i32,
    py: i32,
    pw: u32,
    ph: u32,
    total: usize,
) -> bool {
    (g.cols != 0 && grid_rows(g.cols, total) != 0) ==> {
        &&& px + g.padding.left <= i32::MAX
        &&& py + g.padding.top <= i32::MAX
        &&& g.col_gap * (g.cols - 1) <= u32::MAX
        &&& g.row_gap * (grid_rows(g.cols, total) - 1) <= u32::MAX
        &&& grid_cell_w(g, pw) + g.col_gap <= u32::MAX
        &&& grid_cell_h(g, ph, total) + g.row_gap <= u32::MAX
        &&& grid_dx(g, pw, index) <= u32::MAX
        &&& grid_dy(g, ph, index, total) <= u32::MAX
        &&& i32::MIN <= px + g.padding.left + wrap_i32(grid_dx(g, pw, index)) <= i32::MAX
        &&& i32::MIN <= py + g.padding.top + wrap_i32(grid_dy(g, ph, index, total)) <= i32::MAX
    }
}

impl GridLayout {
    /// Create a new grid layout with specified column count.
    pub fn new(cols: u32) -> (r: Self)
        ensures
            r == (GridLayout { cols, row_gap: 0, col_gap: 0, padding: Padding::zero_spec() }),
    {
        GridLayout { cols, row_gap: 0, col_gap: 0, padding: Padding::zero() }
    }

    /// Set gaps between cells.
    pub fn with_gap(self, row_gap: u32, col_gap: u32) -> (r: Self)
        ensures
            r == (GridLayout { row_gap, col_gap, ..self }),
    {
        GridLayout { row_gap, col_gap, ..self }
    }

    /// Set padding around the grid.
    pub fn with_padding(self, padding: Padding) -> (r: Self)
        ensures
            r == (GridLayout { padding, ..self }),
    {
        GridLayout { padding, ..self }
    }

    /// Compute the cell rect for a given linear index.
    ///
    /// Cells are sized uniformly to fill the parent, accounting for gaps
    /// and padding. Returns `None` if `cols` is 0 (or there are no rows).
    pub fn cell_rect(
        &self,
        index: usize,
        parent_x: i32,
        parent_y: i32,
        parent_w: u32,
        parent_h: u32,
        total: usize,
    ) -> (r: Option<ComputedRect>)
        requires
            grid_fits(*self, index, parent_x, parent_y, parent_w, parent_h, total),
        ensures
            r == grid_cell_spec(*self, index, parent_x, parent_y, parent_w, parent_h, total),
    {
        if self.cols == 0 {
            return None;
        }
        let t = #[verifier::truncate] (total as u32);
        let q = t / self.cols;
        let rows = if t % self.cols == 0 {
            q
        } else {
            assert(q < u32::MAX) by (nonlinear_arith)
                requires
                    q == t / self.cols,
                    t % self.cols != 0,
                    self.cols > 0,
            {
                if self.cols == 1 {
                    assert(t % 1 == 0);
                }
                assert(q * self.cols <= t);
            }
            q + 1
        };
        assert(rows == grid_rows(self.cols, total));
        if rows == 0 {
            return None;
        }
        let (px, py, pw, ph) = self.padding.inner_rect(parent_x, parent_y, parent_w, parent_h);
        let total_col_gap = self.col_gap * (self.cols - 1);
        let total_row_gap = self.row_gap * (rows - 1);
        let cell_w = pw.saturating_sub(total_col_gap) / self.cols;
        let cell_h = ph.saturating_sub(total_row_gap) / rows;
        let ix = #[verifier::truncate] (index as u32);
        let col = ix % self.cols;
        let row = ix / self.cols;
        let dx = col * (cell_w + self.col_gap);
        let dy = row * (cell_h + self.row_gap);
        Some(ComputedRect { x: px + to_i32(dx), y: py + to_i32(dy), w: cell_w, h: cell_h })
    }

    /// Compute all cell rects for `total` items.
    pub fn all_cells(
        &self,
        parent_x: i32,
        parent_y: i32,
        parent_w: u32,
        parent_h: u32,
        total: usize,
    ) -> (r: Vec<ComputedRect>)
        requires
            forall|i: usize|
                i < total ==> #[trigger] grid_fits(
                    *self,
                    i,
                    parent_x,
                    parent_y,
                    parent_w,
                    parent_h,
                    total,
                ),
        ensures
            r@.len() == if self.cols == 0 || grid_rows(self.cols, total) == 0 {
                0
            } else {
                total as int
            },
            total <= u32::MAX ==> r@.len() == if self.cols == 0 {
                0
            } else {
                total as int
            },
            forall|i: int|
                0 <= i < r@.len() ==> Some(#[trigger] r@[i]) == grid_cell_spec(
                    *self,
                    i as usize,
                    parent_x,
                    parent_y,
                    parent_w,
                    parent_h,
                    total,
                ),
    {
        let mut out: Vec<ComputedRect> = Vec::new();
        let mut i: usize = 0;
        while i < total
            invariant
                0 <= i <= total,
                forall|j: usize|
                    j < total ==> #[trigger] grid_fits(
                        *self,
                        j,
                        parent_x,
                        parent_y,
                        parent_w,
                        parent_h,
                        total,
                    ),
                out@.len() == if self.cols == 0 || grid_rows(self.cols, total) == 0 {
                    0
                } else {
                    i as int
                },
                forall|j: int|
                    0 <= j < out@.len() ==> Some(#[trigger] out@[j]) == grid_cell_spec(
                        *self,
                        j as usize,
                        parent_x,
                        parent_y,
                        parent_w,
                        parent_h,
                        total,
                    ),
            decreases total - i,
        {
            match self.cell_rect(i, parent_x, parent_y, parent_w, parent_h, total) {
                Some(rect) => {
                    out.push(rect);
                },
                None => {},
            }
            i = i + 1;
        }
        proof {
            if self.cols > 0 && total <= u32::MAX {
                lemma_grid_rows_zero(self.cols, total);
            }
        }
        out
    }
}

/// The `i`-th rectangle of a vertical list.
pub open spec fn list_item_spec(x: i32, y: i32, w: u32, item_height: u32, gap: u32, i: int) -> ComputedRect {
    ComputedRect {
        x,
        y: (y + wrap_i32(((i as u32) * (item_height + gap)) as int)) as i32,
        w,
        h: item_height,
    }
}

/// Whether every item of a vertical list stays inside the integer ranges.
pub open spec fn list_fits(y: i32, item_height: u32, gap: u32, count: usize) -> bool {
    count > 0 ==> {
        &&& item_height + gap <= u32::MAX
        &&& count - 1 <= u32::MAX
        &&& (count - 1) * (item_height + gap) <= u32::MAX
        &&& forall|i: int|
            0 <= i < count ==> i32::MIN <= y + wrap_i32(#[trigger] (i * (item_height + gap)))
                <= i32::MAX
    }
}

/// Compute a vertical list of equally spaced items: item `i` sits
/// `i * (item_height + gap)` pixels below `y`.
pub fn vertical_list(x: i32, y: i32, w: u32, item_height: u32, gap: u32, count: usize) -> (r: Vec<
    ComputedRect,
>)
    requires
        list_fits(y, item_height, gap, count),
    ensures
        r@.len() == count,
        forall|i: int| 0 <= i < count ==> #[trigger] r@[i] == list_item_spec(x, y, w, item_height, gap, i),
{
    let mut out: Vec<ComputedRect> = Vec::new();
    let mut i: usize = 0;
    while i < count
        invariant
            0 <= i <= count,
            list_fits(y, item_height, gap, count),
            out@.len() == i,
            forall|j: int| 0 <= j < i ==> #[trigger] out@[j] == list_item_spec(x, y, w, item_height, gap, j),
        decreases count - i,
    {
        let step = item_height + gap;
        assert(i * step <= (count - 1) * step) by (nonlinear_arith)
            requires
                i <= count - 1,
                step >= 0,
        ;
        let k = i as u32;
        let off = k * step;
        assert(((i as int) as u32) == k);
        let ghost gi = i as int;
        assert(i32::MIN <= y + wrap_i32(gi * (item_height + gap)) <= i32::MAX);
        out.push(ComputedRect { x, y: y + to_i32(off), w, h: item_height });
        i = i + 1;
    }
    out
}

} // verus!
