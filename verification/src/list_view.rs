//! Scrollable list with fixed-height rows, of which only the rows inside
//! the viewport are rendered.
use crate::draw::{cmds, lemma_cmds_add, lemma_cmds_push, DrawCmd, DrawOp};
use crate::theme::Theme;
use vstd::prelude::*;

verus! {

/// A vertically scrolling list of items, each `item_height` pixels tall.
pub struct ListView<T> {
    /// The items, top to bottom.
    pub items: Vec<T>,
    /// Pixels scrolled past the top of the content.
    pub scroll_offset: i32,
    /// Height of one row in pixels (at least 1 after `new`).
    pub item_height: u32,
    /// Index of the selected item, if any.
    pub selected: Option<usize>,
}

/// Top edge of row `index` in content coordinates.
pub open spec fn row_top(index: int, item_height: int) -> int {
    index * item_height
}

/// The offset `scroll_to` leaves: scrolled up to the row when it lies above
/// the viewport, down so that its bottom edge is the viewport's bottom edge
/// when it reaches below, unchanged otherwise.
pub open spec fn scroll_to_spec(scroll: int, index: int, item_height: int, viewport_h: int) -> int {
    let top = row_top(index, item_height);
    if top < scroll {
        top
    } else if top + item_height > scroll + viewport_h {
        top + item_height - viewport_h
    } else {
        scroll
    }
}

/// First row that is drawn: the row under the top edge of the viewport
/// (row 0 when the offset is not positive).
pub open spec fn first_drawn(scroll: int, item_height: int) -> int {
    if scroll <= 0 {
        0
    } else {
        scroll / item_height
    }
}

/// Number of rows the drawing pass walks from the first drawn row.
pub open spec fn rows_walked(viewport_h: int, item_height: int) -> int {
    viewport_h / item_height + 2
}

/// What row `i` of a list drawn at `(x, y)` with width `w` draws: the
/// selection fill under the selected row, then the item itself.
pub open spec fn list_row_ops<T>(lv: ListView<T>, theme: Theme, x: i32, y: i32, w: u32, i: int) -> Seq<DrawCmd> {
    let iy = y + row_top(i, lv.item_height as int) - lv.scroll_offset;
    let sel = lv.selected == Some(i as usize);
    (if sel {
        seq![DrawCmd::FillRect { x, y: iy as i32, w, h: lv.item_height, color: theme.accent_subtle }]
    } else {
        Seq::empty()
    }) + seq![DrawCmd::Item { index: i as usize, x, y: iy as i32, w, h: lv.item_height, selected: sel }]
}

/// The rows `first..first + k`.
pub open spec fn list_rows_ops<T>(lv: ListView<T>, theme: Theme, x: i32, y: i32, w: u32, first: int, k: nat) -> Seq<
    DrawCmd,
>
    decreases k,
{
    if k == 0 {
        Seq::empty()
    } else {
        list_rows_ops(lv, theme, x, y, w, first, (k - 1) as nat) + list_row_ops(lv, theme, x, y, w, first + k - 1)
    }
}

/// Last row drawn (exclusive) in a viewport `h` tall.
pub open spec fn last_drawn<T>(lv: ListView<T>, h: u32) -> int {
    let first = first_drawn(lv.scroll_offset as int, lv.item_height as int);
    let end = first + rows_walked(h as int, lv.item_height as int);
    if end < lv.items@.len() {
        end
    } else {
        lv.items@.len() as int
    }
}

/// Everything a list draws into the viewport `(x, y, w, h)`: clipped to
/// it, each row from the first under its top edge (the selected one over
/// its fill), as far as the rows walked reach.
pub open spec fn list_ops<T>(lv: ListView<T>, theme: Theme, x: i32, y: i32, w: u32, h: u32) -> Seq<DrawCmd> {
    let first = first_drawn(lv.scroll_offset as int, lv.item_height as int);
    let last = last_drawn(lv, h);
    seq![DrawCmd::PushClip { x, y, w, h }] + list_rows_ops(
        lv,
        theme,
        x,
        y,
        w,
        first,
        if last > first {
            (last - first) as nat
        } else {
            0
        },
    ) + seq![DrawCmd::PopClip]
}

impl<T> ListView<T> {
    /// Create a list at the top, with nothing selected; a row height of
    /// zero becomes one.
    pub fn new(items: Vec<T>, item_height: u32) -> (r: Self)
        ensures
            r.items@ == items@,
            r.scroll_offset == 0,
            r.item_height == if item_height == 0 { 1 } else { item_height },
            r.selected.is_none(),
    {
        ListView {
            items,
            scroll_offset: 0,
            item_height: if item_height == 0 { 1 } else { item_height },
            selected: None,
        }
    }

    /// Height of the whole content: one row per item.
    pub fn content_height(&self) -> (h: u32)
        requires
            self.items.len() * self.item_height <= u32::MAX,
        ensures
            h == self.items.len() * self.item_height,
    {
        let n = self.items.len();
        if self.item_height == 0 {
            return 0;
        }
        assert(n <= n * self.item_height) by (nonlinear_arith)
            requires
                self.item_height >= 1,
        {
        }
        (n as u32) * self.item_height
    }

    /// Scroll the least distance that brings row `index` into a viewport
    /// of `viewport_h` pixels.
    pub fn scroll_to(&mut self, index: usize, viewport_h: u32)
        requires
            row_top(index as int, old(self).item_height as int) + old(self).item_height
                <= i32::MAX,
            viewport_h <= i32::MAX,
            old(self).scroll_offset + viewport_h <= i32::MAX,
        ensures
            final(self).scroll_offset == scroll_to_spec(
                old(self).scroll_offset as int,
                index as int,
                old(self).item_height as int,
                viewport_h as int,
            ),
            final(self).items@ == old(self).items@,
            final(self).item_height == old(self).item_height,
            final(self).selected == old(self).selected,
            old(self).item_height <= viewport_h ==> {
                &&& final(self).scroll_offset <= row_top(index as int, old(self).item_height as int)
                &&& row_top(index as int, old(self).item_height as int) + old(self).item_height
                    <= final(self).scroll_offset + viewport_h
            },
    {
        let ih = self.item_height;
        proof {
            assert(index * ih >= 0) by (nonlinear_arith);
            if ih == 0 {
                assert(index * ih == 0) by (nonlinear_arith)
                    requires
                        ih == 0,
                {
                }
            }
            if ih > 0 {
                assert(index <= index * ih) by (nonlinear_arith)
                    requires
                        ih >= 1,
                {
                }
            }
        }
        let item_y: i32 = if ih == 0 {
            0
        } else {
            let k = index as i32;
            let h = ih as i32;
            assert(k == index && h == ih);
            k * h
        };
        assert(item_y == row_top(index as int, ih as int));
        let ihi = ih as i32;
        let vh = viewport_h as i32;
        if item_y < self.scroll_offset {
            self.scroll_offset = item_y;
        } else if item_y + ihi > self.scroll_offset + vh {
            self.scroll_offset = item_y + ihi - vh;
        }
    }

    /// What drawing the list into the viewport `(x, y, w, h)` asks for:
    /// the renderer draws the fills, and the list's owner draws each
    /// `Item` into its row.
    pub fn draw_at(&self, theme: &Theme, x: i32, y: i32, w: u32, h: u32) -> (r: Vec<DrawOp>)
        requires
            1 <= self.item_height <= i32::MAX,
            rows_walked(h as int, self.item_height as int) <= u32::MAX,
            y - self.scroll_offset >= i32::MIN,
            y - self.scroll_offset + row_top(last_drawn(*self, h), self.item_height as int) <= i32::MAX,
        ensures
            cmds(r@) == list_ops(*self, *theme, x, y, w, h),
    {
        let (first, last) = self.visible_range(h);
        let ih = self.item_height;
        let mut out: Vec<DrawOp> = Vec::new();
        out.push(DrawOp::PushClip { x, y, w, h });
        let ghost head = cmds(out@);
        let mut i: usize = first;
        while i < last
            invariant
                first == first_drawn(self.scroll_offset as int, self.item_height as int),
                last == last_drawn(*self, h),
                first <= i,
                i <= last || i == first,
                ih == self.item_height,
                1 <= ih <= i32::MAX,
                y - self.scroll_offset >= i32::MIN,
                y - self.scroll_offset + row_top(last as int, ih as int) <= i32::MAX,
                cmds(out@) == head + list_rows_ops(*self, *theme, x, y, w, first as int, (i - first) as nat),
            decreases last - i,
        {
            proof {
                assert(0 <= i * ih <= last * ih) by (nonlinear_arith)
                    requires
                        i < last,
                        ih >= 1,
                ;
            }
            let iy64: i64 = y as i64 + i as i64 * ih as i64 - self.scroll_offset as i64;
            let iy = iy64 as i32;
            let sel = match self.selected {
                Some(s) => s == i,
                None => false,
            };
            let mut ops: Vec<DrawOp> = Vec::new();
            if sel {
                ops.push(DrawOp::FillRect { x, y: iy, w, h: ih, color: theme.accent_subtle });
            }
            ops.push(DrawOp::Item { index: i, x, y: iy, w, h: ih, selected: sel });
            assert(cmds(ops@) =~= list_row_ops(*self, *theme, x, y, w, i as int));
            proof {
                lemma_cmds_add(out@, ops@);
            }
            out.append(&mut ops);
            i = i + 1;
        }
        assert((i - first) as nat == (if last > first {
            (last - first) as nat
        } else {
            0
        }));
        proof {
            lemma_cmds_push(out@, DrawOp::PopClip);
        }
        out.push(DrawOp::PopClip);
        assert(cmds(out@) =~= list_ops(*self, *theme, x, y, w, h));
        out
    }

    /// The rows drawn for a viewport of `viewport_h` pixels, as the range
    /// `first..last` of item indices.
    pub fn visible_range(&self, viewport_h: u32) -> (r: (usize, usize))
        requires
            1 <= self.item_height <= i32::MAX,
            rows_walked(viewport_h as int, self.item_height as int) <= u32::MAX,
        ensures
            r.0 == first_drawn(self.scroll_offset as int, self.item_height as int),
            r.1 == if r.0 + rows_walked(viewport_h as int, self.item_height as int)
                < self.items.len() {
                r.0 + rows_walked(viewport_h as int, self.item_height as int)
            } else {
                self.items.len() as int
            },
    {
        let ih = self.item_height;
        let first: usize = if self.scroll_offset <= 0 {
            0
        } else {
            ((self.scroll_offset as u32) / ih) as usize
        };
        let walked: usize = (viewport_h / ih + 2) as usize;
        let len = self.items.len();
        let last: usize = if first >= len {
            len
        } else if walked < len - first {
            first + walked
        } else {
            len
        };
        (first, last)
    }
}

/// Every item whose row overlaps the viewport lies in the range that
/// `visible_range` hands to the drawing pass: scrolling never leaves a
/// visible row undrawn.
pub proof fn lemma_visible_rows_drawn(
    scroll: int,
    item_height: int,
    viewport_h: int,
    len: int,
    i: int,
)
    requires
        item_height >= 1,
        viewport_h >= 0,
        0 <= i < len,
        row_top(i, item_height) < scroll + viewport_h,
        row_top(i, item_height) + item_height > scroll,
    ensures
        first_drawn(scroll, item_height) <= i,
        i < first_drawn(scroll, item_height) + rows_walked(viewport_h, item_height),
        i < len,
{
    let f = first_drawn(scroll, item_height);
    let q = viewport_h / item_height;
    assert(viewport_h < (q + 1) * item_height) by (nonlinear_arith)
        requires
            item_height >= 1,
            q == viewport_h / item_height,
            viewport_h >= 0,
    {
    }
    if scroll <= 0 {
        assert(f == 0);
        assert(i < q + 2) by (nonlinear_arith)
            requires
                i * item_height < scroll + viewport_h,
                scroll <= 0,
                viewport_h < (q + 1) * item_height,
                item_height >= 1,
        {
        }
    } else {
        assert(f * item_height <= scroll && scroll < (f + 1) * item_height) by (nonlinear_arith)
            requires
                f == scroll / item_height,
                scroll > 0,
                item_height >= 1,
        {
        }
        assert(f <= i) by (nonlinear_arith)
            requires
                i * item_height + item_height > scroll,
                f * item_height <= scroll,
                item_height >= 1,
        {
        }
        assert(i < f + q + 2) by (nonlinear_arith)
            requires
                i * item_height < scroll + viewport_h,
                scroll < (f + 1) * item_height,
                viewport_h < (q + 1) * item_height,
                item_height >= 1,
        {
        }
    }
}

} // verus!
