//! Tooltip: hover-activated text overlay, its timer and its placement.
//!
//! Tooltips appear near a target widget after a configurable hover delay.
//! They position themselves to stay within the viewport, preferring to
//! appear below the target.
use crate::draw::{cmds, DrawCmd, DrawOp, ShadowKind};
use crate::layout::{as_i32, center, center_in_range, center_spec, to_i32};
use crate::theme::Theme;
use vstd::prelude::*;
use vstd::string::StrSliceExecFns;

verus! {

/// Preferred position of the tooltip relative to its target.
#[derive(Debug, Clone, Copy, PartialEq, Eq, Structural)]
pub enum TooltipPosition {
    /// Display above the target.
    Above,
    /// Display below the target.
    Below,
    /// Display to the left of the target.
    Left,
    /// Display to the right of the target.
    Right,
}

/// Current visibility state of the tooltip.
#[derive(Debug, Clone, Copy, PartialEq, Eq, Structural)]
pub enum TooltipState {
    /// Tooltip is hidden.
    Hidden,
    /// Hover has started; waiting for the delay to elapse.
    Waiting,
    /// Tooltip is visible.
    Visible,
}

/// A tooltip overlay with configurable delay and positioning.
pub struct Tooltip {
    /// Tooltip text content.
    pub text: String,
    /// Preferred position relative to the target.
    pub position: TooltipPosition,
    /// Current visibility state.
    pub state: TooltipState,
    /// Delay in milliseconds before showing after hover starts.
    pub delay_ms: u32,
    /// Accumulated hover time in milliseconds.
    pub elapsed_ms: u32,
    /// Horizontal padding inside the tooltip.
    pub pad_h: u32,
    /// Vertical padding inside the tooltip.
    pub pad_v: u32,
    /// Gap between the tooltip and the target.
    pub gap: u32,
}

/// The target widget's position and the viewport bounds used to place a
/// tooltip.
#[derive(Debug, Clone, Copy, PartialEq, Eq, Structural)]
pub struct TooltipAnchor {
    /// X position of the target widget.
    pub target_x: i32,
    /// Y position of the target widget.
    pub target_y: i32,
    /// Width of the target widget.
    pub target_w: u32,
    /// Height of the target widget.
    pub target_h: u32,
    /// Viewport width for edge clamping.
    pub viewport_w: u32,
    /// Viewport height for edge clamping.
    pub viewport_h: u32,
}

impl TooltipAnchor {
    /// Create a new tooltip anchor.
    pub fn new(
        target_x: i32,
        target_y: i32,
        target_w: u32,
        target_h: u32,
        viewport_w: u32,
        viewport_h: u32,
    ) -> (r: Self)
        ensures
            r == (TooltipAnchor { target_x, target_y, target_w, target_h, viewport_w, viewport_h }),
    {
        TooltipAnchor { target_x, target_y, target_w, target_h, viewport_w, viewport_h }
    }
}

/// `v` limited to `0..=hi`, where `hi` is never below zero.
pub open spec fn clamp_low0(v: int, hi: int) -> int {
    let top = if hi > 0 {
        hi
    } else {
        0
    };
    if v < 0 {
        0
    } else if v > top {
        top
    } else {
        v
    }
}

/// The ideal (unclamped) top-left corner of a `tw` by `th` tooltip.
pub open spec fn ideal_pos(pos: TooltipPosition, a: TooltipAnchor, gap: u32, tw: u32, th: u32) -> (
    int,
    int,
) {
    let g = as_i32(gap);
    match pos {
        TooltipPosition::Below => (
            a.target_x + center_spec(a.target_w, tw),
            a.target_y + as_i32(a.target_h) + g,
        ),
        TooltipPosition::Above => (
            a.target_x + center_spec(a.target_w, tw),
            a.target_y - as_i32(th) - g,
        ),
        TooltipPosition::Right => (
            a.target_x + as_i32(a.target_w) + g,
            a.target_y + center_spec(a.target_h, th),
        ),
        TooltipPosition::Left => (
            a.target_x - as_i32(tw) - g,
            a.target_y + center_spec(a.target_h, th),
        ),
    }
}

/// Whether placing a `tw` by `th` tooltip stays inside `i32` arithmetic.
pub open spec fn placement_fits(pos: TooltipPosition, a: TooltipAnchor, gap: u32, tw: u32, th: u32) -> bool {
    let g = as_i32(gap);
    &&& i32::MIN <= as_i32(a.viewport_w) - as_i32(tw) <= i32::MAX
    &&& i32::MIN <= as_i32(a.viewport_h) - as_i32(th) <= i32::MAX
    &&& match pos {
        TooltipPosition::Below => {
            &&& center_in_range(a.target_w, tw)
            &&& i32::MIN <= a.target_x + center_spec(a.target_w, tw) <= i32::MAX
            &&& i32::MIN <= a.target_y + as_i32(a.target_h) <= i32::MAX
            &&& i32::MIN <= a.target_y + as_i32(a.target_h) + g <= i32::MAX
        },
        TooltipPosition::Above => {
            &&& center_in_range(a.target_w, tw)
            &&& i32::MIN <= a.target_x + center_spec(a.target_w, tw) <= i32::MAX
            &&& i32::MIN <= a.target_y - as_i32(th) <= i32::MAX
            &&& i32::MIN <= a.target_y - as_i32(th) - g <= i32::MAX
        },
        TooltipPosition::Right => {
            &&& center_in_range(a.target_h, th)
            &&& i32::MIN <= a.target_x + as_i32(a.target_w) <= i32::MAX
            &&& i32::MIN <= a.target_x + as_i32(a.target_w) + g <= i32::MAX
            &&& i32::MIN <= a.target_y + center_spec(a.target_h, th) <= i32::MAX
        },
        TooltipPosition::Left => {
            &&& center_in_range(a.target_h, th)
            &&& i32::MIN <= a.target_x - as_i32(tw) <= i32::MAX
            &&& i32::MIN <= a.target_x - as_i32(tw) - g <= i32::MAX
            &&& i32::MIN <= a.target_y + center_spec(a.target_h, th) <= i32::MAX
        },
    }
}

/// What a tooltip draws in its rectangle `(x, y, w, h)`, given its text's
/// measured width and height: nothing unless visible with some text;
/// otherwise its shadow, background and border, and the text centred.
pub open spec fn tooltip_ops(t: Tooltip, theme: Theme, x: i32, y: i32, w: u32, h: u32, text_w: u32, text_h: u32) -> Seq<
    DrawCmd,
> {
    let r = theme.border_radius_sm;
    if t.state != TooltipState::Visible || t.text@.len() == 0 {
        Seq::empty()
    } else {
        seq![
            DrawCmd::Shadow { x, y, w, h, radius: r, kind: ShadowKind::Tooltip },
            DrawCmd::FillRoundedRect { x, y, w, h, radius: r, color: theme.tooltip_bg },
            DrawCmd::StrokeRoundedRect { x, y, w, h, radius: r, width: 1, color: theme.border_subtle },
            DrawCmd::Text {
                text: t.text@,
                x: (x + center_spec(w, text_w)) as i32,
                y: (y + center_spec(h, text_h)) as i32,
                font_size: theme.font_size_xs,
                color: theme.tooltip_text,
            },
        ]
    }
}

/// The tooltip's rectangle for text measuring `text_w` by `text_h` (see
/// [`Tooltip::compute_rect`]).
pub open spec fn tooltip_rect(t: Tooltip, text_w: u32, text_h: u32, a: TooltipAnchor) -> (int, int, u32, u32) {
    let tw = (text_w + t.pad_h * 2) as u32;
    let th = (text_h + t.pad_v * 2) as u32;
    let p = ideal_pos(t.position, a, t.gap, tw, th);
    (clamp_low0(p.0, as_i32(a.viewport_w) - as_i32(tw)), clamp_low0(p.1, as_i32(a.viewport_h) - as_i32(th)), tw, th)
}

/// Whether placing and drawing the tooltip stays inside `i32` and `u32`
/// arithmetic.
pub open spec fn tooltip_draw_fits(t: Tooltip, text_w: u32, text_h: u32, a: TooltipAnchor) -> bool {
    let r = tooltip_rect(t, text_w, text_h, a);
    &&& text_w + t.pad_h * 2 <= i32::MAX
    &&& text_h + t.pad_v * 2 <= i32::MAX
    &&& placement_fits(t.position, a, t.gap, r.2, r.3)
    &&& r.0 + r.2 <= i32::MAX
    &&& r.1 + r.3 <= i32::MAX
}

impl Tooltip {
    /// Create a hidden tooltip shown below its target after 500 ms.
    pub fn new(text: &str) -> (r: Self)
        ensures
            r.text@ == text@,
            r.position == TooltipPosition::Below,
            r.state == TooltipState::Hidden,
            r.delay_ms == 500,
            r.elapsed_ms == 0,
            r.pad_h == 6,
            r.pad_v == 3,
            r.gap == 4,
    {
        Tooltip {
            text: text.to_string(),
            position: TooltipPosition::Below,
            delay_ms: 500,
            state: TooltipState::Hidden,
            elapsed_ms: 0,
            pad_h: 6,
            pad_v: 3,
            gap: 4,
        }
    }

    /// Set the preferred position.
    pub fn with_position(self, pos: TooltipPosition) -> (r: Self)
        ensures
            r.position == pos,
            r.text == self.text,
            r.state == self.state,
            r.delay_ms == self.delay_ms,
            r.elapsed_ms == self.elapsed_ms,
            r.pad_h == self.pad_h,
            r.pad_v == self.pad_v,
            r.gap == self.gap,
    {
        let mut t = self;
        t.position = pos;
        t
    }

    /// Set the hover delay in milliseconds.
    pub fn with_delay(self, ms: u32) -> (r: Self)
        ensures
            r.delay_ms == ms,
            r.text == self.text,
            r.position == self.position,
            r.state == self.state,
            r.elapsed_ms == self.elapsed_ms,
            r.pad_h == self.pad_h,
            r.pad_v == self.pad_v,
            r.gap == self.gap,
    {
        let mut t = self;
        t.delay_ms = ms;
        t
    }

    /// The cursor entered the target: a hidden tooltip starts waiting.
    pub fn on_hover_start(&mut self)
        ensures
            final(self).text == old(self).text,
            final(self).position == old(self).position,
            final(self).delay_ms == old(self).delay_ms,
            final(self).pad_h == old(self).pad_h,
            final(self).pad_v == old(self).pad_v,
            final(self).gap == old(self).gap,
            old(self).state == TooltipState::Hidden ==> final(self).state == TooltipState::Waiting
                && final(self).elapsed_ms == 0,
            old(self).state != TooltipState::Hidden ==> final(self).state == old(self).state
                && final(self).elapsed_ms == old(self).elapsed_ms,
    {
        if self.state == TooltipState::Hidden {
            self.state = TooltipState::Waiting;
            self.elapsed_ms = 0;
        }
    }

    /// The cursor left the target: the tooltip hides and its timer resets.
    pub fn on_hover_end(&mut self)
        ensures
            final(self).text == old(self).text,
            final(self).position == old(self).position,
            final(self).delay_ms == old(self).delay_ms,
            final(self).pad_h == old(self).pad_h,
            final(self).pad_v == old(self).pad_v,
            final(self).gap == old(self).gap,
            final(self).state == TooltipState::Hidden,
            final(self).elapsed_ms == 0,
    {
        self.state = TooltipState::Hidden;
        self.elapsed_ms = 0;
    }

    /// Advance the hover timer by `dt_ms` milliseconds (saturating). A
    /// waiting tooltip becomes visible once the delay has elapsed.
    pub fn tick(&mut self, dt_ms: u32)
        ensures
            final(self).text == old(self).text,
            final(self).position == old(self).position,
            final(self).delay_ms == old(self).delay_ms,
            final(self).pad_h == old(self).pad_h,
            final(self).pad_v == old(self).pad_v,
            final(self).gap == old(self).gap,
            ({
                let t = if old(self).elapsed_ms + dt_ms > u32::MAX {
                    u32::MAX as int
                } else {
                    old(self).elapsed_ms + dt_ms
                };
                if old(self).state == TooltipState::Waiting {
                    &&& final(self).elapsed_ms == t
                    &&& final(self).state == if t >= old(self).delay_ms {
                        TooltipState::Visible
                    } else {
                        TooltipState::Waiting
                    }
                } else {
                    final(self).elapsed_ms == old(self).elapsed_ms && final(self).state == old(
                        self,
                    ).state
                }
            }),
    {
        if self.state == TooltipState::Waiting {
            self.elapsed_ms = self.elapsed_ms.saturating_add(dt_ms);
            if self.elapsed_ms >= self.delay_ms {
                self.state = TooltipState::Visible;
            }
        }
    }

    /// What drawing the tooltip in `(x, y, w, h)` asks the renderer to
    /// draw, given its text's measured width and height.
    pub fn draw(&self, theme: &Theme, x: i32, y: i32, w: u32, h: u32, text_w: u32, text_h: u32) -> (r: Vec<
        DrawOp,
    >)
        requires
            center_in_range(w, text_w),
            center_in_range(h, text_h),
            i32::MIN <= x + center_spec(w, text_w) <= i32::MAX,
            i32::MIN <= y + center_spec(h, text_h) <= i32::MAX,
        ensures
            cmds(r@) == tooltip_ops(*self, *theme, x, y, w, h, text_w, text_h),
    {
        let mut out: Vec<DrawOp> = Vec::new();
        if !self.is_visible() || self.text.as_str().unicode_len() == 0 {
            assert(cmds(out@) =~= tooltip_ops(*self, *theme, x, y, w, h, text_w, text_h));
            return out;
        }
        let radius = theme.border_radius_sm;
        out.push(DrawOp::Shadow { x, y, w, h, radius, kind: ShadowKind::Tooltip });
        out.push(DrawOp::FillRoundedRect { x, y, w, h, radius, color: theme.tooltip_bg });
        out.push(DrawOp::StrokeRoundedRect { x, y, w, h, radius, width: 1, color: theme.border_subtle });
        out.push(
            DrawOp::Text {
                text: self.text.clone(),
                x: x + center(w, text_w),
                y: y + center(h, text_h),
                font_size: theme.font_size_xs,
                color: theme.tooltip_text,
            },
        );
        assert(cmds(out@) =~= tooltip_ops(*self, *theme, x, y, w, h, text_w, text_h));
        out
    }

    /// What drawing the tooltip where it is placed against `anchor` asks
    /// the renderer to draw, given its text's measured width and height:
    /// nothing unless it is visible with some text.
    pub fn draw_at(&self, theme: &Theme, anchor: &TooltipAnchor, text_w: u32, text_h: u32) -> (r: Vec<DrawOp>)
        requires
            self.state == TooltipState::Visible && self.text@.len() > 0 ==> tooltip_draw_fits(
                *self,
                text_w,
                text_h,
                *anchor,
            ),
        ensures
            cmds(r@) == if self.state != TooltipState::Visible || self.text@.len() == 0 {
                Seq::<DrawCmd>::empty()
            } else {
                let rect = tooltip_rect(*self, text_w, text_h, *anchor);
                tooltip_ops(*self, *theme, rect.0 as i32, rect.1 as i32, rect.2, rect.3, text_w, text_h)
            },
    {
        if !self.is_visible() || self.text.as_str().unicode_len() == 0 {
            let out: Vec<DrawOp> = Vec::new();
            assert(cmds(out@) =~= Seq::<DrawCmd>::empty());
            return out;
        }
        let (tx, ty, tw, th) = self.compute_rect(text_w, text_h, anchor);
        assert(center_in_range(tw, text_w));
        assert(center_in_range(th, text_h));
        self.draw(theme, tx, ty, tw, th, text_w, text_h)
    }

    /// Whether the tooltip should be drawn.
    pub fn is_visible(&self) -> (r: bool)
        ensures
            r == (self.state == TooltipState::Visible),
    {
        self.state == TooltipState::Visible
    }

    /// The tooltip rectangle `(x, y, w, h)` for text measuring `text_w` by
    /// `text_h` pixels: the text plus padding, placed on the preferred side
    /// of the target (centered along it), then clamped into the viewport.
    pub fn compute_rect(&self, text_w: u32, text_h: u32, anchor: &TooltipAnchor) -> (r: (
        i32,
        i32,
        u32,
        u32,
    ))
        requires
            text_w + self.pad_h * 2 <= u32::MAX,
            text_h + self.pad_v * 2 <= u32::MAX,
            placement_fits(
                self.position,
                *anchor,
                self.gap,
                (text_w + self.pad_h * 2) as u32,
                (text_h + self.pad_v * 2) as u32,
            ),
        ensures
            r.2 == text_w + self.pad_h * 2,
            r.3 == text_h + self.pad_v * 2,
            r.0 == clamp_low0(
                ideal_pos(self.position, *anchor, self.gap, r.2, r.3).0,
                as_i32(anchor.viewport_w) - as_i32(r.2),
            ),
            r.1 == clamp_low0(
                ideal_pos(self.position, *anchor, self.gap, r.2, r.3).1,
                as_i32(anchor.viewport_h) - as_i32(r.3),
            ),
            0 <= r.0,
            0 <= r.1,
            as_i32(r.2) <= as_i32(anchor.viewport_w) ==> r.0 + as_i32(r.2) <= as_i32(
                anchor.viewport_w,
            ),
            as_i32(r.3) <= as_i32(anchor.viewport_h) ==> r.1 + as_i32(r.3) <= as_i32(
                anchor.viewport_h,
            ),
    {
        let target_x = anchor.target_x;
        let target_y = anchor.target_y;
        let target_w = anchor.target_w;
        let target_h = anchor.target_h;
        let tw = text_w + self.pad_h * 2;
        let th = text_h + self.pad_v * 2;
        let gap = to_i32(self.gap);
        let (x, y) = match self.position {
            TooltipPosition::Below => {
                let x = target_x + center(target_w, tw);
                let y = target_y + to_i32(target_h) + gap;
                (x, y)
            },
            TooltipPosition::Above => {
                let x = target_x + center(target_w, tw);
                let y = target_y - to_i32(th) - gap;
                (x, y)
            },
            TooltipPosition::Right => {
                let x = target_x + to_i32(target_w) + gap;
                let y = target_y + center(target_h, th);
                (x, y)
            },
            TooltipPosition::Left => {
                let x = target_x - to_i32(tw) - gap;
                let y = target_y + center(target_h, th);
                (x, y)
            },
        };
        let dx = to_i32(anchor.viewport_w) - to_i32(tw);
        let max_x = if dx > 0 {
            dx
        } else {
            0
        };
        let dy = to_i32(anchor.viewport_h) - to_i32(th);
        let max_y = if dy > 0 {
            dy
        } else {
            0
        };
        let cx = if x < 0 {
            0
        } else if x > max_x {
            max_x
        } else {
            x
        };
        let cy = if y < 0 {
            0
        } else if y > max_y {
            max_y
        } else {
            y
        };
        (cx, cy, tw, th)
    }
}

} // verus!
