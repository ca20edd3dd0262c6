//! Split pane: two panes side by side (or stacked) with a divider between
//! them; one pane can be collapsed and the divider dragged.
//!
//! The split itself is a ratio; the size of the first pane along the split
//! axis (`first`) is what the geometry below reads.
use crate::draw::{DrawCmd, DrawOp};
use crate::layout::sat_sub;
use crate::theme::Theme;
pub use crate::styles::{PaneId, SplitOrientation};
use vstd::prelude::*;

verus! {

/// Two panes and a divider.
pub struct SplitPane {
    /// Side by side (`Horizontal`) or stacked (`Vertical`).
    pub orientation: SplitOrientation,
    /// Thickness of the divider in pixels.
    pub divider_width: u16,
    /// Whether the divider is being dragged.
    pub dragging: bool,
    /// The collapsed pane, if any.
    pub collapsed_pane: Option<PaneId>,
    /// Whether the pointer is over the divider.
    pub hovered: bool,
}

/// A rectangle: left, top, width, height.
pub type Rect = (i32, i32, u32, u32);

/// Where the divider starts along the split axis, measured from the start
/// of the area: after the first pane, at the start when the first pane is
/// collapsed, at the far end when the second one is.
pub open spec fn divider_offset(collapsed: Option<PaneId>, total: u32, dw: u32, first: u32) -> int {
    match collapsed {
        Some(PaneId::First) => 0,
        Some(PaneId::Second) => sat_sub(total as int, dw as int),
        None => first as int,
    }
}

/// Size of the first pane as the second pane's position sees it.
pub open spec fn first_extent(collapsed: Option<PaneId>, first: u32) -> int {
    match collapsed {
        Some(PaneId::First) => 0,
        _ => first as int,
    }
}

/// The first pane's rectangle.
pub open spec fn first_rect_spec(
    o: SplitOrientation,
    collapsed: Option<PaneId>,
    x: i32,
    y: i32,
    w: u32,
    h: u32,
    first: u32,
) -> (int, int, int, int) {
    match collapsed {
        Some(PaneId::First) => (x as int, y as int, 0, 0),
        _ => match o {
            SplitOrientation::Horizontal => (x as int, y as int, first as int, h as int),
            SplitOrientation::Vertical => (x as int, y as int, w as int, first as int),
        },
    }
}

/// The second pane's rectangle: from the end of the divider to the end of
/// the area.
pub open spec fn second_rect_spec(
    o: SplitOrientation,
    collapsed: Option<PaneId>,
    dw: u32,
    x: i32,
    y: i32,
    w: u32,
    h: u32,
    first: u32,
) -> (int, int, int, int) {
    let f = first_extent(collapsed, first);
    match collapsed {
        Some(PaneId::Second) => (x as int, y as int, 0, 0),
        _ => match o {
            SplitOrientation::Horizontal => (x + f + dw, y as int, sat_sub(w as int, f + dw), h as int),
            SplitOrientation::Vertical => (x as int, y + f + dw, w as int, sat_sub(h as int, f + dw)),
        },
    }
}

/// The divider's rectangle.
pub open spec fn divider_rect_spec(
    o: SplitOrientation,
    collapsed: Option<PaneId>,
    dw: u32,
    x: i32,
    y: i32,
    w: u32,
    h: u32,
    first: u32,
) -> (int, int, int, int) {
    match o {
        SplitOrientation::Horizontal => (
            x + divider_offset(collapsed, w, dw, first),
            y as int,
            dw as int,
            h as int,
        ),
        SplitOrientation::Vertical => (
            x as int,
            y + divider_offset(collapsed, h, dw, first),
            w as int,
            dw as int,
        ),
    }
}

impl SplitPane {
    /// Two open panes with a 4-pixel divider, not dragging, not hovered.
    pub fn new(orientation: SplitOrientation) -> (r: Self)
        ensures
            r.orientation == orientation,
            r.divider_width == 4,
            !r.dragging,
            r.collapsed_pane.is_none(),
            !r.hovered,
    {
        SplitPane {
            orientation,
            divider_width: 4,
            dragging: false,
            collapsed_pane: None,
            hovered: false,
        }
    }

    /// Whether the divider is being dragged.
    pub fn is_dragging(&self) -> (r: bool)
        ensures
            r == self.dragging,
    {
        self.dragging
    }

    /// Begin dragging the divider.
    pub fn start_drag(&mut self)
        ensures
            final(self).dragging,
            final(self).collapsed_pane == old(self).collapsed_pane,
            final(self).orientation == old(self).orientation,
            final(self).divider_width == old(self).divider_width,
            final(self).hovered == old(self).hovered,
    {
        self.dragging = true;
    }

    /// Stop dragging the divider.
    pub fn end_drag(&mut self)
        ensures
            !final(self).dragging,
            final(self).collapsed_pane == old(self).collapsed_pane,
            final(self).orientation == old(self).orientation,
            final(self).divider_width == old(self).divider_width,
            final(self).hovered == old(self).hovered,
    {
        self.dragging = false;
    }

    /// Collapse `pane`.
    pub fn collapse(&mut self, pane: PaneId)
        ensures
            final(self).collapsed_pane == Some(pane),
            final(self).dragging == old(self).dragging,
            final(self).orientation == old(self).orientation,
            final(self).divider_width == old(self).divider_width,
            final(self).hovered == old(self).hovered,
    {
        self.collapsed_pane = Some(pane);
    }

    /// Open both panes again.
    pub fn expand(&mut self)
        ensures
            final(self).collapsed_pane.is_none(),
            final(self).dragging == old(self).dragging,
            final(self).orientation == old(self).orientation,
            final(self).divider_width == old(self).divider_width,
            final(self).hovered == old(self).hovered,
    {
        self.collapsed_pane = None;
    }

    /// The collapsed pane, if any.
    pub fn is_collapsed(&self) -> (r: Option<PaneId>)
        ensures
            r == self.collapsed_pane,
    {
        self.collapsed_pane
    }

    /// Room left for the two panes along an axis `total` pixels long once
    /// the divider is taken out; the first pane gets its ratio of this.
    pub fn available(&self, total: u32) -> (r: u32)
        ensures
            r == sat_sub(total as int, self.divider_width as int),
    {
        let dw = self.divider_width as u32;
        if total >= dw {
            total - dw
        } else {
            0
        }
    }

    /// Rectangle of the first pane in the area `(x, y, w, h)` when it is
    /// `first` pixels long along the split axis.
    pub fn first_rect(&self, x: i32, y: i32, w: u32, h: u32, first: u32) -> (r: Rect)
        ensures
            (r.0 as int, r.1 as int, r.2 as int, r.3 as int) == first_rect_spec(
                self.orientation,
                self.collapsed_pane,
                x,
                y,
                w,
                h,
                first,
            ),
    {
        match self.collapsed_pane {
            Some(PaneId::First) => (x, y, 0, 0),
            _ => match self.orientation {
                SplitOrientation::Horizontal => (x, y, first, h),
                SplitOrientation::Vertical => (x, y, w, first),
            },
        }
    }

    /// Rectangle of the second pane in the area `(x, y, w, h)` when the
    /// first pane is `first` pixels long along the split axis.
    pub fn second_rect(&self, x: i32, y: i32, w: u32, h: u32, first: u32) -> (r: Rect)
        requires
            self.collapsed_pane != Some(PaneId::Second) ==> {
                let f = first_extent(self.collapsed_pane, first);
                &&& f <= i32::MAX
                &&& match self.orientation {
                    SplitOrientation::Horizontal => x + f + self.divider_width <= i32::MAX,
                    SplitOrientation::Vertical => y + f + self.divider_width <= i32::MAX,
                }
            },
        ensures
            (r.0 as int, r.1 as int, r.2 as int, r.3 as int) == second_rect_spec(
                self.orientation,
                self.collapsed_pane,
                self.divider_width as u32,
                x,
                y,
                w,
                h,
                first,
            ),
    {
        let dw = self.divider_width as u32;
        let f: u32 = match self.collapsed_pane {
            Some(PaneId::First) => 0,
            _ => first,
        };
        match self.collapsed_pane {
            Some(PaneId::Second) => (x, y, 0, 0),
            _ => {
                let lead = f + dw;
                match self.orientation {
                    SplitOrientation::Horizontal => {
                        let sw = if w >= lead {
                            w - lead
                        } else {
                            0
                        };
                        (x + f as i32 + dw as i32, y, sw, h)
                    },
                    SplitOrientation::Vertical => {
                        let sh = if h >= lead {
                            h - lead
                        } else {
                            0
                        };
                        (x, y + f as i32 + dw as i32, w, sh)
                    },
                }
            },
        }
    }

    /// What drawing the split pane at `(x, y, w, h)`, whose first pane is
    /// `first` pixels along the split, asks the renderer to draw: its
    /// divider, in the strong border color while hovered or dragged.
    pub fn draw(&self, theme: &Theme, x: i32, y: i32, w: u32, h: u32, first: u32) -> (r: Vec<DrawOp>)
        requires
            match self.orientation {
                SplitOrientation::Horizontal => {
                    &&& divider_offset(self.collapsed_pane, w, self.divider_width as u32, first)
                        <= i32::MAX
                    &&& x + divider_offset(self.collapsed_pane, w, self.divider_width as u32, first)
                        <= i32::MAX
                },
                SplitOrientation::Vertical => {
                    &&& divider_offset(self.collapsed_pane, h, self.divider_width as u32, first)
                        <= i32::MAX
                    &&& y + divider_offset(self.collapsed_pane, h, self.divider_width as u32, first)
                        <= i32::MAX
                },
            },
        ensures
            r@.len() == 1,
            ({
                let d = divider_rect_spec(
                    self.orientation,
                    self.collapsed_pane,
                    self.divider_width as u32,
                    x,
                    y,
                    w,
                    h,
                    first,
                );
                r@[0]@ == (DrawCmd::FillRect {
                    x: d.0 as i32,
                    y: d.1 as i32,
                    w: d.2 as u32,
                    h: d.3 as u32,
                    color: if self.hovered || self.dragging {
                        theme.border_strong
                    } else {
                        theme.border
                    },
                })
            }),
    {
        let (dx, dy, dw, dh) = self.divider_rect(x, y, w, h, first);
        let color = if self.hovered || self.dragging {
            theme.border_strong
        } else {
            theme.border
        };
        let mut out: Vec<DrawOp> = Vec::new();
        out.push(DrawOp::FillRect { x: dx, y: dy, w: dw, h: dh, color });
        out
    }

    /// Rectangle of the divider in the area `(x, y, w, h)` when the first
    /// pane is `first` pixels long along the split axis.
    pub fn divider_rect(&self, x: i32, y: i32, w: u32, h: u32, first: u32) -> (r: Rect)
        requires
            match self.orientation {
                SplitOrientation::Horizontal => {
                    &&& divider_offset(self.collapsed_pane, w, self.divider_width as u32, first)
                        <= i32::MAX
                    &&& x + divider_offset(self.collapsed_pane, w, self.divider_width as u32, first)
                        <= i32::MAX
                },
                SplitOrientation::Vertical => {
                    &&& divider_offset(self.collapsed_pane, h, self.divider_width as u32, first)
                        <= i32::MAX
                    &&& y + divider_offset(self.collapsed_pane, h, self.divider_width as u32, first)
                        <= i32::MAX
                },
            },
        ensures
            (r.0 as int, r.1 as int, r.2 as int, r.3 as int) == divider_rect_spec(
                self.orientation,
                self.collapsed_pane,
                self.divider_width as u32,
                x,
                y,
                w,
                h,
                first,
            ),
    {
        let dw = self.divider_width as u32;
        let total = match self.orientation {
            SplitOrientation::Horizontal => w,
            SplitOrientation::Vertical => h,
        };
        let off: u32 = match self.collapsed_pane {
            Some(PaneId::First) => 0,
            Some(PaneId::Second) => if total >= dw {
                total - dw
            } else {
                0
            },
            None => first,
        };
        match self.orientation {
            SplitOrientation::Horizontal => (x + off as i32, y, dw, h),
            SplitOrientation::Vertical => (x, y + off as i32, w, dw),
        }
    }
}

/// With both panes open and a first pane that fits in the room the divider
/// leaves, the first pane, the divider and the second pane tile the area
/// along the split axis: the divider starts where the first pane ends, the
/// second pane starts where the divider ends and ends where the area does,
/// and all three span the whole cross axis.
pub proof fn lemma_panes_tile(dw: u32, x: i32, y: i32, w: u32, h: u32, first: u32)
    ensures
        first + dw <= w ==> {
            let a = first_rect_spec(SplitOrientation::Horizontal, None, x, y, w, h, first);
            let d = divider_rect_spec(SplitOrientation::Horizontal, None, dw, x, y, w, h, first);
            let b = second_rect_spec(SplitOrientation::Horizontal, None, dw, x, y, w, h, first);
            &&& a.0 == x && a.1 == y
            &&& a.0 + a.2 == d.0
            &&& d.0 + d.2 == b.0
            &&& b.0 + b.2 == x + w
            &&& a.2 + dw + b.2 == w
            &&& b.1 == y && d.1 == y
            &&& a.3 == h && d.3 == h && b.3 == h
        },
        first + dw <= h ==> {
            let a = first_rect_spec(SplitOrientation::Vertical, None, x, y, w, h, first);
            let d = divider_rect_spec(SplitOrientation::Vertical, None, dw, x, y, w, h, first);
            let b = second_rect_spec(SplitOrientation::Vertical, None, dw, x, y, w, h, first);
            &&& a.0 == x && a.1 == y
            &&& a.1 + a.3 == d.1
            &&& d.1 + d.3 == b.1
            &&& b.1 + b.3 == y + h
            &&& a.3 + dw + b.3 == h
            &&& b.0 == x && d.0 == x
            &&& a.2 == w && d.2 == w && b.2 == w
        },
{
}

/// A collapsed pane leaves the whole area to the other pane and the
/// divider: with the first pane collapsed the divider opens the area and the
/// second pane fills the rest; with the second collapsed the divider closes
/// the area.
pub proof fn lemma_collapsed_fill(dw: u32, x: i32, y: i32, w: u32, h: u32, first: u32)
    requires
        dw <= w,
    ensures
        ({
            let d = divider_rect_spec(
                SplitOrientation::Horizontal,
                Some(PaneId::First),
                dw,
                x,
                y,
                w,
                h,
                first,
            );
            let b = second_rect_spec(
                SplitOrientation::Horizontal,
                Some(PaneId::First),
                dw,
                x,
                y,
                w,
                h,
                first,
            );
            &&& d.0 == x
            &&& d.0 + d.2 == b.0
            &&& b.0 + b.2 == x + w
        }),
        divider_rect_spec(SplitOrientation::Horizontal, Some(PaneId::Second), dw, x, y, w, h, first).0
            + dw == x + w,
{
}

} // verus!
