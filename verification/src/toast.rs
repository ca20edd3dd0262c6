//! Toast notifications: short-lived messages kept in a bounded queue that
//! ages by one frame per `tick`.
use crate::color::Color;
use crate::draw::{cmds, lemma_cmds_add, DrawCmd, DrawOp, ShadowKind};
use crate::layout::{center, center_in_range, center_spec};
use crate::theme::Theme;
use std::collections::VecDeque;
use vstd::prelude::*;

pub use crate::styles::{ToastLevel, ToastPosition};

verus! {

/// Frames the slide-in entrance of a toast takes.
pub const ENTRANCE_FRAMES: u32 = 10;

/// One notification.
pub struct Toast {
    /// Message text.
    pub message: String,
    /// Severity, which picks the background color.
    pub level: ToastLevel,
    /// Frames left before the toast is dismissed.
    pub ttl: u32,
    /// The lifetime the toast started with.
    pub total_ttl: u32,
    /// Frames of the entrance animation played so far; the toast is fully
    /// in once this reaches `ENTRANCE_FRAMES`.
    pub entrance_frames: u32,
}

impl Toast {
    /// A toast that has not started its entrance, living `ttl` frames.
    pub fn new(message: &str, level: ToastLevel, ttl: u32) -> (r: Self)
        ensures
            r.message@ == message@,
            r.level == level,
            r.ttl == ttl,
            r.total_ttl == ttl,
            r.entrance_frames == 0,
    {
        Toast { message: message.to_string(), level, ttl, total_ttl: ttl, entrance_frames: 0 }
    }

    /// Background color of the toast: the theme's status color for its
    /// level.
    pub fn bg_color(&self, theme: &Theme) -> (r: Color)
        ensures
            r == match self.level {
                ToastLevel::Info => theme.info,
                ToastLevel::Success => theme.success,
                ToastLevel::Warning => theme.warning,
                ToastLevel::Error => theme.error,
            },
    {
        match self.level {
            ToastLevel::Info => theme.info,
            ToastLevel::Success => theme.success,
            ToastLevel::Warning => theme.warning,
            ToastLevel::Error => theme.error,
        }
    }

    /// Whether no frames are left.
    pub fn is_expired(&self) -> (r: bool)
        ensures
            r == (self.ttl == 0),
    {
        self.ttl == 0
    }
}

/// A toast one frame later: one frame less to live (never below zero) and
/// one more entrance frame (never past the end).
pub open spec fn aged(t: Toast) -> Toast {
    Toast {
        message: t.message,
        level: t.level,
        ttl: if t.ttl == 0 {
            0
        } else {
            (t.ttl - 1) as u32
        },
        total_ttl: t.total_ttl,
        entrance_frames: if t.entrance_frames < ENTRANCE_FRAMES {
            (t.entrance_frames + 1) as u32
        } else {
            t.entrance_frames
        },
    }
}

/// The queue one frame later: every toast aged, those left with no frames
/// removed, the order kept.
pub open spec fn survivors(s: Seq<Toast>) -> Seq<Toast>
    decreases s.len(),
{
    if s.len() == 0 {
        Seq::empty()
    } else {
        let rest = survivors(s.drop_last());
        let t = aged(s.last());
        if t.ttl == 0 {
            rest
        } else {
            rest.push(t)
        }
    }
}

/// No survivor has run out of frames, and ageing never adds toasts.
pub proof fn lemma_survivors_alive(s: Seq<Toast>)
    ensures
        survivors(s).len() <= s.len(),
        forall|j: int| 0 <= j < survivors(s).len() ==> #[trigger] survivors(s)[j].ttl > 0,
    decreases s.len(),
{
    if s.len() > 0 {
        lemma_survivors_alive(s.drop_last());
    }
}

/// A stack of toasts anchored in a screen corner.
pub struct ToastStack {
    toasts: VecDeque<Toast>,
    position: ToastPosition,
    max_visible: usize,
    max_queued: usize,
}

impl ToastStack {
    /// The queued toasts, oldest first.
    pub closed spec fn queue(&self) -> Seq<Toast> {
        self.toasts@
    }

    /// The corner the stack is anchored in.
    pub closed spec fn anchor(&self) -> ToastPosition {
        self.position
    }

    /// How many toasts are drawn at once.
    pub closed spec fn visible_limit(&self) -> nat {
        self.max_visible as nat
    }

    /// How many toasts the queue holds at most.
    pub closed spec fn capacity(&self) -> nat {
        self.max_queued as nat
    }

    /// An empty stack in the top-right corner that shows four toasts and
    /// queues eight.
    pub fn new() -> (r: Self)
        ensures
            r.queue() == Seq::<Toast>::empty(),
            r.anchor() == ToastPosition::TopRight,
            r.visible_limit() == 4,
            r.capacity() == 8,
    {
        ToastStack {
            toasts: VecDeque::new(),
            position: ToastPosition::TopRight,
            max_visible: 4,
            max_queued: 8,
        }
    }

    /// The same stack anchored in `position`.
    pub fn with_position(self, position: ToastPosition) -> (r: Self)
        ensures
            r.anchor() == position,
            r.queue() == self.queue(),
            r.visible_limit() == self.visible_limit(),
            r.capacity() == self.capacity(),
    {
        let mut s = self;
        s.position = position;
        s
    }

    /// Queue a new toast; while the queue holds more than its capacity the
    /// oldest toast is dropped.
    pub fn show(&mut self, message: &str, level: ToastLevel, ttl: u32)
        ensures
            final(self).queue().len() == if old(self).queue().len() + 1 <= old(self).capacity() {
                old(self).queue().len() + 1
            } else {
                old(self).capacity()
            },
            final(self).queue().len() > 0 ==> {
                let t = final(self).queue().last();
                &&& t.message@ == message@
                &&& t.level == level
                &&& t.ttl == ttl
                &&& t.total_ttl == ttl
                &&& t.entrance_frames == 0
            },
            final(self).queue().len() > 0 ==> final(self).queue().drop_last()
                == old(self).queue().subrange(
                old(self).queue().len() + 1 - final(self).queue().len(),
                old(self).queue().len() as int,
            ),
            final(self).anchor() == old(self).anchor(),
            final(self).visible_limit() == old(self).visible_limit(),
            final(self).capacity() == old(self).capacity(),
    {
        let ghost before = self.toasts@;
        let toast = Toast::new(message, level, ttl);
        self.toasts.push_back(toast);
        let ghost pushed = self.toasts@;
        let ghost mut k: int = 0;
        while self.toasts.len() > self.max_queued
            invariant
                pushed == before.push(toast),
                0 <= k <= pushed.len(),
                self.toasts@ == pushed.subrange(k, pushed.len() as int),
                k > 0 ==> self.toasts@.len() >= self.max_queued,
                self.max_queued == old(self).max_queued,
                self.max_visible == old(self).max_visible,
                self.position == old(self).position,
            decreases self.toasts@.len(),
        {
            self.toasts.pop_front();
            proof {
                k = k + 1;
            }
        }
        proof {
            let n = self.toasts@.len();
            if n > 0 {
                assert(self.toasts@.last() == toast);
                assert(self.toasts@.drop_last() =~= before.subrange(before.len() + 1 - n, before.len() as int));
            }
        }
    }

    /// Advance every toast by one frame and drop those that expire.
    pub fn tick(&mut self)
        ensures
            final(self).queue() == survivors(old(self).queue()),
            forall|j: int|
                0 <= j < final(self).queue().len() ==> #[trigger] final(self).queue()[j].ttl > 0,
            final(self).queue().len() <= old(self).queue().len(),
            final(self).anchor() == old(self).anchor(),
            final(self).visible_limit() == old(self).visible_limit(),
            final(self).capacity() == old(self).capacity(),
    {
        let mut rest: VecDeque<Toast> = VecDeque::new();
        std::mem::swap(&mut rest, &mut self.toasts);
        let ghost orig = rest@;
        let mut kept: VecDeque<Toast> = VecDeque::new();
        let ghost mut i: int = 0;
        while rest.len() > 0
            invariant
                0 <= i <= orig.len(),
                rest@ == orig.subrange(i, orig.len() as int),
                kept@ == survivors(orig.take(i)),
            decreases rest@.len(),
        {
            let t = rest.pop_front().unwrap();
            let ttl: u32 = if t.ttl == 0 {
                0
            } else {
                t.ttl - 1
            };
            let entrance: u32 = if t.entrance_frames < ENTRANCE_FRAMES {
                t.entrance_frames + 1
            } else {
                t.entrance_frames
            };
            let next = Toast {
                message: t.message,
                level: t.level,
                ttl,
                total_ttl: t.total_ttl,
                entrance_frames: entrance,
            };
            proof {
                assert(orig.take(i + 1).drop_last() =~= orig.take(i));
                assert(orig.take(i + 1).last() == orig[i]);
            }
            if next.ttl != 0 {
                kept.push_back(next);
            }
            proof {
                i = i + 1;
            }
        }
        proof {
            assert(orig.take(i) =~= orig);
            lemma_survivors_alive(orig);
        }
        self.toasts = kept;
    }

    /// Remove every toast.
    pub fn clear(&mut self)
        ensures
            final(self).queue() == Seq::<Toast>::empty(),
            final(self).anchor() == old(self).anchor(),
            final(self).visible_limit() == old(self).visible_limit(),
            final(self).capacity() == old(self).capacity(),
    {
        self.toasts.clear();
    }

    /// Number of queued toasts.
    pub fn count(&self) -> (r: usize)
        ensures
            r == self.queue().len(),
    {
        self.toasts.len()
    }

    /// Whether no toast is queued.
    pub fn is_empty(&self) -> (r: bool)
        ensures
            r == (self.queue().len() == 0),
    {
        self.toasts.len() == 0
    }

    /// The queued toasts, oldest first.
    pub fn toasts(&self) -> (r: &VecDeque<Toast>)
        ensures
            r@ == self.queue(),
    {
        &self.toasts
    }

    /// The corner the stack is anchored in.
    pub fn position(&self) -> (r: ToastPosition)
        ensures
            r == self.anchor(),
    {
        self.position
    }

    /// How many toasts are drawn at once.
    pub fn max_visible(&self) -> (r: usize)
        ensures
            r == self.visible_limit(),
    {
        self.max_visible
    }

    /// How many toasts the queue holds at most.
    pub fn max_queued(&self) -> (r: usize)
        ensures
            r == self.capacity(),
    {
        self.max_queued
    }

    /// Preferred size of the stack: the widest of the first toasts (as many
    /// as the visible limit; `text_widths[i]` is toast `i`'s message width)
    /// plus padding and margins, by the shown toasts' heights, gaps and
    /// margins; nothing when empty.
    pub fn measure(&self, text_widths: &Vec<u32>, text_h: u32) -> (r: (u32, u32))
        requires
            text_widths@.len() == shown_count(*self),
            forall|i: int| 0 <= i < text_widths@.len() ==> #[trigger] text_widths@[i] + 32 <= u32::MAX,
            shown_count(*self) * (text_h + 2 * TOAST_PAD_V) + 4 * shown_count(*self) + 16 <= u32::MAX,
        ensures
            r == (if self.queue().len() == 0 {
                (0u32, 0u32)
            } else {
                (
                    (seq_max_u32(text_widths@) + 32) as u32,
                    (shown_count(*self) * (text_h + 2 * TOAST_PAD_V) + TOAST_GAP * (if shown_count(*self) > 0 {
                        shown_count(*self) - 1
                    } else {
                        0
                    }) + 16) as u32,
                )
            }),
    {
        if self.toasts.len() == 0 {
            return (0, 0);
        }
        let n = text_widths.len();
        let mut max_w: u32 = 0;
        let mut i: usize = 0;
        while i < n
            invariant
                n == text_widths@.len(),
                i <= n,
                forall|k: int| 0 <= k < text_widths@.len() ==> #[trigger] text_widths@[k] + 32 <= u32::MAX,
                max_w == seq_max_u32(text_widths@.take(i as int)),
                max_w + 32 <= u32::MAX,
            decreases n - i,
        {
            proof {
                assert(text_widths@.take(i as int + 1).drop_last() =~= text_widths@.take(i as int));
            }
            if text_widths[i] > max_w {
                max_w = text_widths[i];
            }
            i = i + 1;
        }
        proof {
            assert(text_widths@.take(n as int) =~= text_widths@);
        }
        let th: u64 = text_h as u64 + 2 * TOAST_PAD_V as u64;
        let k: u64 = n as u64;
        assert(k * th == shown_count(*self) * (text_h + 2 * TOAST_PAD_V));
        let gaps: u64 = if k > 0 {
            k - 1
        } else {
            0
        };
        let h: u64 = k * th + TOAST_GAP as u64 * gaps + 16;
        (max_w + 32, h as u32)
    }

    /// What drawing the stack over `(x, y, w, h)` asks the renderer to
    /// draw, given the text height and, for each shown toast (oldest
    /// first), how far it is slid in from its resting place and its
    /// message's measured width.
    #[verifier::rlimit(60)]
    pub fn draw(
        &self,
        theme: &Theme,
        x: i32,
        y: i32,
        w: u32,
        h: u32,
        text_h: u32,
        slide: &Vec<i32>,
        text_widths: &Vec<u32>,
    ) -> (r: Vec<DrawOp>)
        requires
            toasts_draw_fits(*self, x, y, w, h, text_h, slide@, text_widths@),
        ensures
            cmds(r@) == toasts_ops(*self, *theme, x, y, w, h, text_h, slide@, text_widths@, shown_count(*self)),
    {
        let (first, n) = self.visible_range();
        let th: u32 = text_h + 2 * TOAST_PAD_V;
        let tw: u32 = if w >= 16 {
            w - 16
        } else {
            0
        };
        let right = match self.position {
            ToastPosition::TopRight | ToastPosition::BottomRight => true,
            _ => false,
        };
        let top = match self.position {
            ToastPosition::TopRight | ToastPosition::TopLeft => true,
            _ => false,
        };
        assert(center_in_range(th, text_h));
        let ty_off = center(th, text_h);
        assert(0 <= ty_off <= th);
        let radius = theme.border_radius_md;
        let mut out: Vec<DrawOp> = Vec::new();
        let mut i: usize = 0;
        while first + i < n
            invariant
                n == self.queue().len(),
                first == (if self.queue().len() > self.visible_limit() {
                    self.queue().len() - self.visible_limit()
                } else {
                    0
                }),
                first + i <= n,
                n - first == shown_count(*self),
                toasts_draw_fits(*self, x, y, w, h, text_h, slide@, text_widths@),
                th == text_h + 2 * TOAST_PAD_V,
                tw == (if w >= 2 * TOAST_MARGIN {
                    w - 2 * TOAST_MARGIN
                } else {
                    0
                }),
                right == (self.anchor() == ToastPosition::TopRight || self.anchor() == ToastPosition::BottomRight),
                top == (self.anchor() == ToastPosition::TopRight || self.anchor() == ToastPosition::TopLeft),
                ty_off == center_spec(th, text_h),
                0 <= ty_off <= th,
                radius == theme.border_radius_md,
                cmds(out@) == toasts_ops(*self, *theme, x, y, w, h, text_h, slide@, text_widths@, i as nat),
            decreases n - first - i,
        {
            let ghost tws: int = if w >= 2 * TOAST_MARGIN {
                w - 2 * TOAST_MARGIN
            } else {
                0
            };
            let ghost ths: int = text_h + 2 * TOAST_PAD_V;
            let ghost slot = toast_slot(self.anchor(), x, y, w, h, tws, ths, slide@[i as int], i as int);
            assert(0 <= i < shown_count(*self));
            assert(toast_slot_fits(*self, x, y, w, h, text_h, slide@, text_widths@, i as int));
            assert(i32::MIN <= slot.0 && slot.0 + tws <= i32::MAX && i32::MIN <= slot.1 && slot.1 + ths <= i32::MAX
                && text_widths@[i as int] <= i32::MAX);
            proof {
                lemma_toast_row(i as int, th as int + 4);
            }
            let sl = slide[i] as i64;
            let rest_x: i64 = if right {
                x as i64 + w as i64 - 8 - tw as i64
            } else {
                x as i64 + 8
            };
            let tx64: i64 = if right {
                rest_x + sl
            } else {
                rest_x - sl
            };
            let step: i64 = th as i64 + 4;
            let ty64: i64 = if top {
                y as i64 + 8 + i as i64 * step
            } else {
                y as i64 + h as i64 - 8 - (i as i64 + 1) * step + 4
            };
            assert(tx64 == slot.0 && ty64 == slot.1);
            let tx = tx64 as i32;
            let ty = ty64 as i32;
            let toast = &self.toasts[first + i];
            let mut ops: Vec<DrawOp> = Vec::new();
            ops.push(DrawOp::Shadow { x: tx, y: ty, w: tw, h: th, radius, kind: ShadowKind::Tooltip });
            ops.push(DrawOp::FillRoundedRect { x: tx, y: ty, w: tw, h: th, radius, color: toast.bg_color(theme) });
            let mw = text_widths[i];
            assert(center_in_range(tw, mw));
            ops.push(
                DrawOp::Text {
                    text: toast.message.clone(),
                    x: tx + center(tw, mw),
                    y: ty + ty_off,
                    font_size: theme.font_size_md,
                    color: theme.text_on_accent,
                },
            );
            assert(cmds(ops@) =~= toast_ops(*self, *theme, x, y, w, h, text_h, slide@, text_widths@, i as int));
            proof {
                lemma_cmds_add(out@, ops@);
            }
            out.append(&mut ops);
            i = i + 1;
        }
        out
    }

    /// The indices `first..len` of the toasts that are drawn: the most
    /// recent ones, as many as the visible limit allows.
    pub fn visible_range(&self) -> (r: (usize, usize))
        ensures
            r.1 == self.queue().len(),
            r.0 == if self.queue().len() > self.visible_limit() {
                self.queue().len() - self.visible_limit()
            } else {
                0
            },
    {
        let n = self.toasts.len();
        if n > self.max_visible {
            (n - self.max_visible, n)
        } else {
            (0, n)
        }
    }
}

/// The largest of `s`, or zero.
pub open spec fn seq_max_u32(s: Seq<u32>) -> int
    decreases s.len(),
{
    if s.len() == 0 {
        0
    } else {
        let m = seq_max_u32(s.drop_last());
        if s.last() > m {
            s.last() as int
        } else {
            m
        }
    }
}

/// Row `i` of toasts `step` apart.
proof fn lemma_toast_row(i: int, step: int)
    requires
        0 <= i,
        step >= 1,
    ensures
        i <= i * step,
        (i + 1) * step == i * step + step,
{
    assert(i <= i * step) by (nonlinear_arith)
        requires
            0 <= i,
            step >= 1,
    ;
    assert((i + 1) * step == i * step + step) by (nonlinear_arith);
}

/// Gap between a toast and the screen edge.
pub const TOAST_MARGIN: u32 = 8;

/// Gap between two stacked toasts.
pub const TOAST_GAP: u32 = 4;

/// Vertical padding inside a toast.
pub const TOAST_PAD_V: u32 = 4;

/// Left edge and top edge of visible toast `i` (counted from the anchored
/// edge), for an area `(x, y, w, h)`, toasts `th` tall and `tw` wide, slid
/// `slide` pixels away from their resting place.
pub open spec fn toast_slot(pos: ToastPosition, x: i32, y: i32, w: u32, h: u32, tw: int, th: int, slide: i32, i: int) -> (
    int,
    int,
) {
    let right = pos == ToastPosition::TopRight || pos == ToastPosition::BottomRight;
    let top = pos == ToastPosition::TopRight || pos == ToastPosition::TopLeft;
    let rest_x = if right {
        x + w - TOAST_MARGIN - tw
    } else {
        x + TOAST_MARGIN
    };
    (
        if right {
            rest_x + slide
        } else {
            rest_x - slide
        },
        if top {
            y + TOAST_MARGIN + i * (th + TOAST_GAP)
        } else {
            y + h - TOAST_MARGIN - (i + 1) * (th + TOAST_GAP) + TOAST_GAP
        },
    )
}

/// What visible toast `i` draws: its shadow, its background in its level's
/// color, and its message centred (`text_w[i]` wide).
pub open spec fn toast_ops(
    s: ToastStack,
    theme: Theme,
    x: i32,
    y: i32,
    w: u32,
    h: u32,
    text_h: u32,
    slide: Seq<i32>,
    text_w: Seq<u32>,
    i: int,
) -> Seq<DrawCmd> {
    let q = s.queue();
    let first = if q.len() > s.visible_limit() {
        q.len() - s.visible_limit()
    } else {
        0
    };
    let t = q[first + i];
    let th = text_h + 2 * TOAST_PAD_V;
    let tw = if w >= 2 * TOAST_MARGIN {
        w - 2 * TOAST_MARGIN
    } else {
        0
    };
    let slot = toast_slot(s.anchor(), x, y, w, h, tw, th, slide[i], i);
    let r = theme.border_radius_md;
    seq![
        DrawCmd::Shadow {
            x: slot.0 as i32,
            y: slot.1 as i32,
            w: tw as u32,
            h: th as u32,
            radius: r,
            kind: ShadowKind::Tooltip,
        },
        DrawCmd::FillRoundedRect {
            x: slot.0 as i32,
            y: slot.1 as i32,
            w: tw as u32,
            h: th as u32,
            radius: r,
            color: match t.level {
                ToastLevel::Info => theme.info,
                ToastLevel::Success => theme.success,
                ToastLevel::Warning => theme.warning,
                ToastLevel::Error => theme.error,
            },
        },
        DrawCmd::Text {
            text: t.message@,
            x: (slot.0 + center_spec(tw as u32, text_w[i])) as i32,
            y: (slot.1 + center_spec(th as u32, text_h)) as i32,
            font_size: theme.font_size_md,
            color: theme.text_on_accent,
        },
    ]
}

/// The operations of the first `k` visible toasts.
pub open spec fn toasts_ops(
    s: ToastStack,
    theme: Theme,
    x: i32,
    y: i32,
    w: u32,
    h: u32,
    text_h: u32,
    slide: Seq<i32>,
    text_w: Seq<u32>,
    k: nat,
) -> Seq<DrawCmd>
    decreases k,
{
    if k == 0 {
        Seq::empty()
    } else {
        toasts_ops(s, theme, x, y, w, h, text_h, slide, text_w, (k - 1) as nat) + toast_ops(
            s,
            theme,
            x,
            y,
            w,
            h,
            text_h,
            slide,
            text_w,
            k - 1,
        )
    }
}

/// Number of toasts drawn: the most recent ones, up to the visible limit.
pub open spec fn shown_count(s: ToastStack) -> nat {
    if s.queue().len() > s.visible_limit() {
        s.visible_limit()
    } else {
        s.queue().len()
    }
}

/// Whether drawing the stack over `(x, y, w, h)` stays inside `i32`
/// arithmetic, given each shown toast's slide offset and message width.
pub open spec fn toasts_draw_fits(
    s: ToastStack,
    x: i32,
    y: i32,
    w: u32,
    h: u32,
    text_h: u32,
    slide: Seq<i32>,
    text_w: Seq<u32>,
) -> bool {
    let th = text_h + 2 * TOAST_PAD_V;
    let tw = if w >= 2 * TOAST_MARGIN {
        w - 2 * TOAST_MARGIN
    } else {
        0
    };
    &&& slide.len() == shown_count(s)
    &&& text_w.len() == shown_count(s)
    &&& w <= i32::MAX
    &&& th <= i32::MAX
    &&& forall|i: int|
        0 <= i < shown_count(s) ==> #[trigger] toast_slot_fits(s, x, y, w, h, text_h, slide, text_w, i)
}

/// Whether visible toast `i` lies inside `i32` coordinates.
pub open spec fn toast_slot_fits(
    s: ToastStack,
    x: i32,
    y: i32,
    w: u32,
    h: u32,
    text_h: u32,
    slide: Seq<i32>,
    text_w: Seq<u32>,
    i: int,
) -> bool {
    let th = text_h + 2 * TOAST_PAD_V;
    let tw = if w >= 2 * TOAST_MARGIN {
        w - 2 * TOAST_MARGIN
    } else {
        0
    };
    let slot = toast_slot(s.anchor(), x, y, w, h, tw, th, slide[i], i);
    &&& i32::MIN <= slot.0 && slot.0 + tw <= i32::MAX
    &&& i32::MIN <= slot.1 && slot.1 + th <= i32::MAX
    &&& text_w[i] <= i32::MAX
}

impl Default for ToastStack {
    fn default() -> (r: Self)
        ensures
            r.queue() == Seq::<Toast>::empty(),
            r.anchor() == ToastPosition::TopRight,
            r.visible_limit() == 4,
            r.capacity() == 8,
    {
        ToastStack::new()
    }
}

/// The first `k` toasts draw three operations each, in order.
proof fn lemma_toasts_ops_index(
    s: ToastStack,
    theme: Theme,
    x: i32,
    y: i32,
    w: u32,
    h: u32,
    text_h: u32,
    slide: Seq<i32>,
    text_w: Seq<u32>,
    k: nat,
)
    ensures
        toasts_ops(s, theme, x, y, w, h, text_h, slide, text_w, k).len() == 3 * k,
        forall|i: int, j: int|
            0 <= i < k && 0 <= j < 3 ==> #[trigger] toasts_ops(s, theme, x, y, w, h, text_h, slide, text_w, k)[3
                * i + j] == toast_ops(s, theme, x, y, w, h, text_h, slide, text_w, i)[j],
    decreases k,
{
    if k > 0 {
        lemma_toasts_ops_index(s, theme, x, y, w, h, text_h, slide, text_w, (k - 1) as nat);
        let a = toasts_ops(s, theme, x, y, w, h, text_h, slide, text_w, (k - 1) as nat);
        let b = toast_ops(s, theme, x, y, w, h, text_h, slide, text_w, k - 1);
        assert forall|i: int, j: int| 0 <= i < k && 0 <= j < 3 implies #[trigger] toasts_ops(
            s,
            theme,
            x,
            y,
            w,
            h,
            text_h,
            slide,
            text_w,
            k,
        )[3 * i + j] == toast_ops(s, theme, x, y, w, h, text_h, slide, text_w, i)[j] by {
            if i < k - 1 {
                assert(3 * i + j < 3 * (k - 1));
                assert((a + b)[3 * i + j] == a[3 * i + j]);
            } else {
                assert(3 * i + j - 3 * (k - 1) == j);
                assert((a + b)[3 * i + j] == b[j]);
            }
        }
    }
}

/// Where the stack sits: the `i`-th drawn toast (counted from the anchored
/// edge) is as wide as the area less its margins and as tall as a line plus
/// its padding; in a top corner its top edge lies `TOAST_MARGIN` plus `i`
/// toast heights and gaps below the area's top, in a bottom corner its
/// bottom edge lies as far above the area's bottom; in a right corner its
/// right edge sits `TOAST_MARGIN` inside the area's right edge (moved out by
/// its slide), in a left corner its left edge sits `TOAST_MARGIN` inside the
/// area's left edge (moved out by its slide).
pub proof fn lemma_toast_rect_at_anchor(
    s: ToastStack,
    theme: Theme,
    x: i32,
    y: i32,
    w: u32,
    h: u32,
    text_h: u32,
    slide: Seq<i32>,
    text_w: Seq<u32>,
    i: int,
)
    requires
        toasts_draw_fits(s, x, y, w, h, text_h, slide, text_w),
        0 <= i < shown_count(s),
    ensures
        ({
            let th = text_h + 2 * TOAST_PAD_V;
            let tw = if w >= 2 * TOAST_MARGIN {
                w - 2 * TOAST_MARGIN
            } else {
                0
            };
            let from_edge = TOAST_MARGIN + i * (th + TOAST_GAP);
            match toasts_ops(s, theme, x, y, w, h, text_h, slide, text_w, shown_count(s))[3 * i + 1] {
                DrawCmd::FillRoundedRect { x: rx, y: ry, w: rw, h: rh, .. } => {
                    &&& rw == tw
                    &&& rh == th
                    &&& (s.anchor() == ToastPosition::TopLeft || s.anchor() == ToastPosition::TopRight)
                        ==> ry == y + from_edge
                    &&& (s.anchor() == ToastPosition::BottomLeft || s.anchor()
                        == ToastPosition::BottomRight) ==> ry + th == y + h - from_edge
                    &&& (s.anchor() == ToastPosition::TopRight || s.anchor()
                        == ToastPosition::BottomRight) ==> rx + tw == x + w - TOAST_MARGIN + slide[i]
                    &&& (s.anchor() == ToastPosition::TopLeft || s.anchor() == ToastPosition::BottomLeft)
                        ==> rx == x + TOAST_MARGIN - slide[i]
                },
                _ => false,
            }
        }),
{
    lemma_toasts_ops_index(s, theme, x, y, w, h, text_h, slide, text_w, shown_count(s));
    assert(toast_slot_fits(s, x, y, w, h, text_h, slide, text_w, i));
    let th = text_h + 2 * TOAST_PAD_V;
    lemma_toast_row(i, th + 4);
    assert(toasts_ops(s, theme, x, y, w, h, text_h, slide, text_w, shown_count(s))[3 * i + 1] == toast_ops(
        s,
        theme,
        x,
        y,
        w,
        h,
        text_h,
        slide,
        text_w,
        i,
    )[1]);
}

} // verus!
