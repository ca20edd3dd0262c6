//! Checkbox widget state.
use crate::draw::{cmds, lemma_cmds_push, DrawCmd, DrawOp};
use crate::layout::{center, center_in_range, center_spec};
use crate::text::push_char;
use crate::theme::Theme;
use vstd::prelude::*;
use vstd::string::StrSliceExecFns;

verus! {

/// A labelled on/off box.
pub struct Checkbox {
    /// Whether the box is ticked.
    pub checked: bool,
    /// Label text.
    pub label: String,
    /// Whether the checkbox ignores toggling.
    pub disabled: bool,
}

/// Side of the check box.
pub const BOX_SIZE: u32 = 14;

/// Largest font size of the tick.
pub const CHECK_FONT_MAX: u16 = 10;

/// Gap between the box and the label.
pub const CHECK_LABEL_GAP: i32 = 6;

/// What a checkbox draws at `(x, y)` in a row `h` tall, given the label's
/// text height and the tick's measured width and height: the box (accent
/// when checked), its border, the tick when checked, and the label when
/// there is one.
pub open spec fn checkbox_ops(
    c: Checkbox,
    theme: Theme,
    x: i32,
    y: i32,
    h: u32,
    text_h: u32,
    tick_w: u32,
    tick_h: u32,
) -> Seq<DrawCmd> {
    let box_y = y + center_spec(h, BOX_SIZE);
    let r = theme.border_radius_sm;
    seq![
        DrawCmd::FillRoundedRect {
            x,
            y: box_y as i32,
            w: BOX_SIZE,
            h: BOX_SIZE,
            radius: r,
            color: if c.checked {
                theme.accent
            } else {
                theme.input_bg
            },
        },
        DrawCmd::StrokeRoundedRect {
            x,
            y: box_y as i32,
            w: BOX_SIZE,
            h: BOX_SIZE,
            radius: r,
            width: 1,
            color: if c.disabled {
                theme.border_subtle
            } else if c.checked {
                theme.accent
            } else {
                theme.input_border
            },
        },
    ] + (if c.checked {
        seq![
            DrawCmd::Text {
                text: seq!['\u{2713}'],
                x: (x + center_spec(BOX_SIZE, tick_w)) as i32,
                y: (box_y + center_spec(BOX_SIZE, tick_h)) as i32,
                font_size: if theme.font_size_md < CHECK_FONT_MAX {
                    theme.font_size_md
                } else {
                    CHECK_FONT_MAX
                },
                color: theme.text_on_accent,
            },
        ]
    } else {
        Seq::empty()
    }) + (if c.label@.len() > 0 {
        seq![
            DrawCmd::Text {
                text: c.label@,
                x: (x + BOX_SIZE + CHECK_LABEL_GAP) as i32,
                y: (y + center_spec(h, text_h)) as i32,
                font_size: theme.font_size_md,
                color: if c.disabled {
                    theme.text_disabled
                } else {
                    theme.text_primary
                },
            },
        ]
    } else {
        Seq::empty()
    })
}

/// Whether drawing the checkbox at `(x, y)` in a row `h` tall stays inside
/// `i32` arithmetic.
pub open spec fn checkbox_draw_fits(x: i32, y: i32, h: u32, text_h: u32, tick_w: u32, tick_h: u32) -> bool {
    &&& h < i32::MAX
    &&& text_h <= i32::MAX
    &&& tick_w <= i32::MAX
    &&& tick_h <= i32::MAX
    &&& y + h + BOX_SIZE <= i32::MAX
    &&& x + BOX_SIZE + CHECK_LABEL_GAP <= i32::MAX
}

impl Checkbox {
    /// Create an enabled checkbox.
    pub fn new(label: &str, checked: bool) -> (r: Self)
        ensures
            r.label@ == label@,
            r.checked == checked,
            !r.disabled,
    {
        Checkbox { checked, label: label.to_string(), disabled: false }
    }

    /// What drawing the checkbox at `(x, y)` in a row `h` tall asks the
    /// renderer to draw, given the label's text height and the tick's
    /// measured width and height.
    pub fn draw(&self, theme: &Theme, x: i32, y: i32, h: u32, text_h: u32, tick_w: u32, tick_h: u32) -> (r:
        Vec<DrawOp>)
        requires
            checkbox_draw_fits(x, y, h, text_h, tick_w, tick_h),
        ensures
            cmds(r@) == checkbox_ops(*self, *theme, x, y, h, text_h, tick_w, tick_h),
    {
        let radius = theme.border_radius_sm;
        assert(center_in_range(h, BOX_SIZE));
        let box_y = y + center(h, BOX_SIZE);
        let mut out: Vec<DrawOp> = Vec::new();
        let bg = if self.checked {
            theme.accent
        } else {
            theme.input_bg
        };
        out.push(DrawOp::FillRoundedRect { x, y: box_y, w: BOX_SIZE, h: BOX_SIZE, radius, color: bg });
        out.push(
            DrawOp::StrokeRoundedRect {
                x,
                y: box_y,
                w: BOX_SIZE,
                h: BOX_SIZE,
                radius,
                width: 1,
                color: theme.interactive_border(self.disabled, self.checked),
            },
        );
        if self.checked {
            let check_fs = if theme.font_size_md < CHECK_FONT_MAX {
                theme.font_size_md
            } else {
                CHECK_FONT_MAX
            };
            let mut tick = String::new();
            push_char(&mut tick, '\u{2713}');
            assert(center_in_range(BOX_SIZE, tick_w));
            assert(center_in_range(BOX_SIZE, tick_h));
            let op = DrawOp::Text {
                text: tick,
                x: x + center(BOX_SIZE, tick_w),
                y: box_y + center(BOX_SIZE, tick_h),
                font_size: check_fs,
                color: theme.text_on_accent,
            };
            proof {
                lemma_cmds_push(out@, op);
            }
            out.push(op);
        }
        if self.label.as_str().unicode_len() > 0 {
            assert(center_in_range(h, text_h));
            let op = DrawOp::Text {
                text: self.label.clone(),
                x: x + BOX_SIZE as i32 + CHECK_LABEL_GAP,
                y: y + center(h, text_h),
                font_size: theme.font_size_md,
                color: theme.interactive_text(self.disabled),
            };
            proof {
                lemma_cmds_push(out@, op);
            }
            out.push(op);
        }
        assert(cmds(out@) =~= checkbox_ops(*self, *theme, x, y, h, text_h, tick_w, tick_h));
        out
    }

    /// Flip the checked state unless disabled; returns the new state.
    pub fn toggle(&mut self) -> (r: bool)
        ensures
            final(self).checked == (if old(self).disabled {
                old(self).checked
            } else {
                !old(self).checked
            }),
            final(self).label == old(self).label,
            final(self).disabled == old(self).disabled,
            r == final(self).checked,
    {
        if !self.disabled {
            self.checked = !self.checked;
        }
        self.checked
    }
}

/// Toggling an enabled checkbox twice restores its state; toggling a
/// disabled one changes nothing.
pub proof fn lemma_toggle_involution(checked: bool, disabled: bool)
    ensures
        ({
            let once = if disabled { checked } else { !checked };
            let twice = if disabled { once } else { !once };
            twice == checked
        }),
{
}

} // verus!
