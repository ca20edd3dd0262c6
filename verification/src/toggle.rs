//! Toggle switch drawing.
use crate::color::Color;
use crate::draw::{cmds, DrawCmd, DrawOp};
use crate::theme::Theme;
use vstd::prelude::*;

verus! {

/// What a toggle switch draws in `(x, y, w, h)`, given its track color and
/// how far its thumb has travelled from the off end: the rounded track,
/// then the thumb disc two pixels inside it.
pub open spec fn toggle_ops(theme: Theme, x: i32, y: i32, w: u32, h: u32, track: Color, thumb_off: i32) -> Seq<
    DrawCmd,
> {
    seq![
        DrawCmd::FillRoundedRect { x, y, w, h, radius: (h as u16) / 2, color: track },
        DrawCmd::FillCircle {
            cx: (x + (h as int) / 2 + thumb_off) as i32,
            cy: (y + (h as int) / 2) as i32,
            r: (((h as int) / 2 - 2) as i32) as u16,
            color: theme.toggle_thumb,
        },
    ]
}

/// What drawing a toggle switch in `(x, y, w, h)` asks the renderer to
/// draw, given its track color and its thumb's offset from the off end.
pub fn draw_toggle(theme: &Theme, x: i32, y: i32, w: u32, h: u32, track: Color, thumb_off: i32) -> (r: Vec<DrawOp>)
    requires
        h <= i32::MAX,
        y + (h as int) / 2 <= i32::MAX,
        x + (h as int) / 2 <= i32::MAX,
        i32::MIN <= x + (h as int) / 2 + thumb_off <= i32::MAX,
    ensures
        cmds(r@) == toggle_ops(*theme, x, y, w, h, track, thumb_off),
{
    let half: i32 = (h / 2) as i32;
    let tr: i32 = half - 2;
    let mut out: Vec<DrawOp> = Vec::new();
    out.push(DrawOp::FillRoundedRect { x, y, w, h, radius: (#[verifier::truncate] (h as u16)) / 2, color: track });
    out.push(
        DrawOp::FillCircle {
            cx: x + half + thumb_off,
            cy: y + half,
            r: #[verifier::truncate] (tr as u16),
            color: theme.toggle_thumb,
        },
    );
    assert(cmds(out@) =~= toggle_ops(*theme, x, y, w, h, track, thumb_off));
    out
}

} // verus!
