//! Spin box drawing.
use crate::draw::{cmds, DrawCmd, DrawOp};
use crate::layout::{center, center_in_range, center_spec, sat_sub};
use crate::text::push_char;
use crate::theme::Theme;
use vstd::prelude::*;

verus! {

/// Width of the minus and plus buttons.
pub const SPIN_BUTTON_WIDTH: u32 = 18;

/// What a spin box looks like apart from its value: whether it is
/// disabled, and whether its value sits at the minimum or the maximum
/// (which greys out the button that would pass it).
#[derive(Debug, Clone, Copy, PartialEq, Eq, Structural)]
pub struct SpinBoxFace {
    /// Whether the spin box is drawn greyed out.
    pub disabled: bool,
    /// Whether the value is at (or below) the minimum.
    pub at_min: bool,
    /// Whether the value is at (or above) the maximum.
    pub at_max: bool,
}

/// Text color for an element that is greyed out or not.
pub open spec fn active_text(theme: Theme, greyed: bool) -> crate::color::Color {
    if greyed {
        theme.text_disabled
    } else {
        theme.text_primary
    }
}

/// What a spin box draws in `(x, y, w, h)`, given the text height, the
/// widths of `-` and `+`, and its value text and that text's width: its
/// background and border, the minus button on the left, the plus button
/// on the right, and the value centred between them.
pub open spec fn spin_box_ops(
    f: SpinBoxFace,
    theme: Theme,
    x: i32,
    y: i32,
    w: u32,
    h: u32,
    text_h: u32,
    minus_w: u32,
    plus_w: u32,
    value: Seq<char>,
    value_w: u32,
) -> Seq<DrawCmd> {
    let b = SPIN_BUTTON_WIDTH;
    let border = if f.disabled {
        theme.border_subtle
    } else {
        theme.input_border
    };
    let ty = y + center_spec(h, text_h);
    let px = x + (w - b);
    seq![
        DrawCmd::FillRect { x, y, w, h, color: theme.surface },
        DrawCmd::StrokeRect { x, y, w, h, width: 1, color: border },
        DrawCmd::StrokeRect { x, y, w: b, h, width: 1, color: border },
        DrawCmd::Text {
            text: seq!['-'],
            x: (x + center_spec(b, minus_w)) as i32,
            y: ty as i32,
            font_size: theme.font_size_md,
            color: active_text(theme, f.disabled || f.at_min),
        },
        DrawCmd::StrokeRect { x: px as i32, y, w: b, h, width: 1, color: border },
        DrawCmd::Text {
            text: seq!['+'],
            x: (px + center_spec(b, plus_w)) as i32,
            y: ty as i32,
            font_size: theme.font_size_md,
            color: active_text(theme, f.disabled || f.at_max),
        },
        DrawCmd::Text {
            text: value,
            x: (x + b + center_spec(sat_sub(w as int, 2 * b) as u32, value_w)) as i32,
            y: ty as i32,
            font_size: theme.font_size_md,
            color: active_text(theme, f.disabled),
        },
    ]
}

/// Whether drawing a spin box in `(x, y, w, h)` stays inside `i32` and
/// `u32` arithmetic: it is at least as wide as one button.
pub open spec fn spin_box_draw_fits(x: i32, y: i32, w: u32, h: u32, text_h: u32, minus_w: u32, plus_w: u32, value_w: u32) -> bool {
    &&& SPIN_BUTTON_WIDTH <= w < i32::MAX
    &&& x + w <= i32::MAX
    &&& h < i32::MAX
    &&& y + h <= i32::MAX
    &&& text_h <= i32::MAX
    &&& minus_w <= i32::MAX
    &&& plus_w <= i32::MAX
    &&& value_w <= i32::MAX
    &&& x - minus_w >= i32::MIN
    &&& x - value_w >= i32::MIN
}

impl SpinBoxFace {
    /// What drawing the spin box in `(x, y, w, h)` asks the renderer to
    /// draw, given the text height, the widths of `-` and `+`, and the value
    /// text and its width.
    pub fn draw(
        &self,
        theme: &Theme,
        x: i32,
        y: i32,
        w: u32,
        h: u32,
        text_h: u32,
        minus_w: u32,
        plus_w: u32,
        value: &str,
        value_w: u32,
    ) -> (r: Vec<DrawOp>)
        requires
            spin_box_draw_fits(x, y, w, h, text_h, minus_w, plus_w, value_w),
        ensures
            cmds(r@) == spin_box_ops(*self, *theme, x, y, w, h, text_h, minus_w, plus_w, value@, value_w),
    {
        let b = SPIN_BUTTON_WIDTH;
        let border = theme.interactive_border(self.disabled, false);
        let fs = theme.font_size_md;
        assert(center_in_range(h, text_h));
        let ty = y + center(h, text_h);
        let mut out: Vec<DrawOp> = Vec::new();
        out.push(DrawOp::FillRect { x, y, w, h, color: theme.surface });
        out.push(DrawOp::StrokeRect { x, y, w, h, width: 1, color: border });
        out.push(DrawOp::StrokeRect { x, y, w: b, h, width: 1, color: border });
        let mut minus = String::new();
        push_char(&mut minus, '-');
        assert(center_in_range(b, minus_w));
        out.push(
            DrawOp::Text {
                text: minus,
                x: x + center(b, minus_w),
                y: ty,
                font_size: fs,
                color: theme.interactive_text(self.disabled || self.at_min),
            },
        );
        let px = x + (w - b) as i32;
        out.push(DrawOp::StrokeRect { x: px, y, w: b, h, width: 1, color: border });
        let mut plus = String::new();
        push_char(&mut plus, '+');
        assert(center_in_range(b, plus_w));
        out.push(
            DrawOp::Text {
                text: plus,
                x: px + center(b, plus_w),
                y: ty,
                font_size: fs,
                color: theme.interactive_text(self.disabled || self.at_max),
            },
        );
        let area: u32 = if w >= 2 * b {
            w - 2 * b
        } else {
            0
        };
        assert(center_in_range(area, value_w));
        out.push(
            DrawOp::Text {
                text: String::from_str(value),
                x: x + b as i32 + center(area, value_w),
                y: ty,
                font_size: fs,
                color: theme.interactive_text(self.disabled),
            },
        );
        assert(cmds(out@) =~= spin_box_ops(*self, *theme, x, y, w, h, text_h, minus_w, plus_w, value@, value_w));
        out
    }
}

} // verus!
