//! Radio group: mutually exclusive option selection.
use crate::draw::{cmds, lemma_cmds_add, DrawCmd, DrawOp};
use crate::layout::{center, center_in_range, center_spec};
use crate::theme::Theme;
use vstd::prelude::*;

verus! {

/// A group of mutually exclusive options.
pub struct RadioGroup {
    /// Option labels.
    pub options: Vec<String>,
    /// Index of the selected option.
    pub selected: usize,
    /// Whether the group ignores selection changes.
    pub disabled: bool,
}

/// Index after `i` in a cycle of `n` items.
pub open spec fn next_index(i: int, n: int) -> int {
    (i + 1) % n
}

/// Index before `i` in a cycle of `n` items (the last item before the first).
pub open spec fn prev_index(i: int, n: int) -> int {
    if i == 0 {
        n - 1
    } else {
        i - 1
    }
}

/// Side of an option's circle.
pub const CIRCLE_SIZE: u32 = 14;

/// Vertical gap between two options.
pub const ITEM_SPACING: u32 = 4;

/// Height of an option row for text `text_h` tall.
pub open spec fn radio_row_height(text_h: u32) -> int {
    if text_h > CIRCLE_SIZE {
        text_h as int
    } else {
        CIRCLE_SIZE as int
    }
}

/// What option `i` draws: its circle, the dot inside when selected, and
/// its label beside it.
pub open spec fn radio_option_ops(g: RadioGroup, theme: Theme, x: i32, y: i32, text_h: u32, i: int) -> Seq<DrawCmd> {
    let row_h = radio_row_height(text_h);
    let iy = y + i * (row_h + ITEM_SPACING);
    let cy = iy + center_spec(row_h as u32, CIRCLE_SIZE);
    let sel = i == g.selected;
    seq![
        DrawCmd::StrokeRoundedRect {
            x,
            y: cy as i32,
            w: CIRCLE_SIZE,
            h: CIRCLE_SIZE,
            radius: 7,
            width: 1,
            color: if g.disabled {
                theme.border_subtle
            } else if sel {
                theme.accent
            } else {
                theme.input_border
            },
        },
    ] + (if sel {
        seq![
            DrawCmd::FillRoundedRect {
                x: (x + 3) as i32,
                y: (cy + 3) as i32,
                w: 8,
                h: 8,
                radius: 4,
                color: if g.disabled {
                    theme.text_disabled
                } else {
                    theme.accent
                },
            },
        ]
    } else {
        Seq::empty()
    }) + seq![
        DrawCmd::Text {
            text: g.options@[i]@,
            x: (x + CIRCLE_SIZE + 6) as i32,
            y: (iy + center_spec(row_h as u32, text_h)) as i32,
            font_size: theme.font_size_md,
            color: if g.disabled {
                theme.text_disabled
            } else {
                theme.text_primary
            },
        },
    ]
}

/// The operations of the first `k` options.
pub open spec fn radio_ops(g: RadioGroup, theme: Theme, x: i32, y: i32, text_h: u32, k: nat) -> Seq<DrawCmd>
    decreases k,
{
    if k == 0 {
        Seq::empty()
    } else {
        radio_ops(g, theme, x, y, text_h, (k - 1) as nat) + radio_option_ops(g, theme, x, y, text_h, k - 1)
    }
}

/// Whether drawing the group at `(x, y)` stays inside `i32` and `u32`
/// arithmetic.
pub open spec fn radio_draw_fits(g: RadioGroup, x: i32, y: i32, text_h: u32) -> bool {
    &&& text_h <= i32::MAX - ITEM_SPACING
    &&& x + CIRCLE_SIZE + 6 <= i32::MAX
    &&& g.options@.len() * (radio_row_height(text_h) + ITEM_SPACING) <= i32::MAX
    &&& y + g.options@.len() * (radio_row_height(text_h) + ITEM_SPACING) <= i32::MAX
}

proof fn lemma_option_row(n: int, step: int, i: int)
    requires
        0 <= i < n,
        step >= 0,
    ensures
        0 <= i * step,
        i * step + step <= n * step,
        step >= 1 ==> i <= i * step,
{
    assert(step >= 1 ==> i <= i * step) by (nonlinear_arith)
        requires
            0 <= i,
    ;
    assert(0 <= i * step) by (nonlinear_arith)
        requires
            0 <= i,
            step >= 0,
    ;
    assert(i * step + step <= n * step) by (nonlinear_arith)
        requires
            0 <= i < n,
            step >= 0,
    ;
}

impl RadioGroup {
    /// What drawing the group at `(x, y)` asks the renderer to draw, given
    /// the text height.
    pub fn draw(&self, theme: &Theme, x: i32, y: i32, text_h: u32) -> (r: Vec<DrawOp>)
        requires
            radio_draw_fits(*self, x, y, text_h),
        ensures
            cmds(r@) == radio_ops(*self, *theme, x, y, text_h, self.options@.len()),
    {
        let row_h: u32 = if text_h > CIRCLE_SIZE {
            text_h
        } else {
            CIRCLE_SIZE
        };
        assert(center_in_range(row_h, CIRCLE_SIZE));
        let coff = center(row_h, CIRCLE_SIZE);
        assert(center_in_range(row_h, text_h));
        let toff = center(row_h, text_h);
        assert(0 <= coff <= row_h && 0 <= toff <= row_h);
        let n = self.options.len();
        let mut out: Vec<DrawOp> = Vec::new();
        let mut i: usize = 0;
        while i < n
            invariant
                n == self.options@.len(),
                i <= n,
                radio_draw_fits(*self, x, y, text_h),
                row_h == radio_row_height(text_h),
                coff == center_spec(row_h, CIRCLE_SIZE),
                toff == center_spec(row_h, text_h),
                0 <= coff <= row_h,
                0 <= toff <= row_h,
                cmds(out@) == radio_ops(*self, *theme, x, y, text_h, i as nat),
            decreases n - i,
        {
            proof {
                lemma_option_row(n as int, row_h + ITEM_SPACING, i as int);
            }
            let iy = y + (i as u32 * (row_h + ITEM_SPACING)) as i32;
            let sel = i == self.selected;
            let cy = iy + coff;
            let mut ops: Vec<DrawOp> = Vec::new();
            ops.push(
                DrawOp::StrokeRoundedRect {
                    x,
                    y: cy,
                    w: CIRCLE_SIZE,
                    h: CIRCLE_SIZE,
                    radius: 7,
                    width: 1,
                    color: theme.interactive_border(self.disabled, sel),
                },
            );
            if sel {
                ops.push(
                    DrawOp::FillRoundedRect {
                        x: x + 3,
                        y: cy + 3,
                        w: 8,
                        h: 8,
                        radius: 4,
                        color: theme.interactive_accent(self.disabled),
                    },
                );
            }
            ops.push(
                DrawOp::Text {
                    text: self.options[i].clone(),
                    x: x + CIRCLE_SIZE as i32 + 6,
                    y: iy + toff,
                    font_size: theme.font_size_md,
                    color: theme.interactive_text(self.disabled),
                },
            );
            assert(cmds(ops@) =~= radio_option_ops(*self, *theme, x, y, text_h, i as int));
            proof {
                lemma_cmds_add(out@, ops@);
            }
            out.append(&mut ops);
            i = i + 1;
        }
        out
    }

    /// Create an enabled group with the first option selected.
    pub fn new(options: Vec<String>) -> (r: Self)
        ensures
            r.options@ == options@,
            r.selected == 0,
            !r.disabled,
    {
        RadioGroup { options, selected: 0, disabled: false }
    }

    /// Select the option at `index`, if enabled and in range.
    pub fn select(&mut self, index: usize)
        ensures
            final(self).options@ == old(self).options@,
            final(self).disabled == old(self).disabled,
            final(self).selected == if !old(self).disabled && index < old(self).options@.len() {
                index
            } else {
                old(self).selected
            },
    {
        if !self.disabled && index < self.options.len() {
            self.selected = index;
        }
    }

    /// Select the next option, wrapping around.
    pub fn select_next(&mut self)
        requires
            old(self).selected < usize::MAX,
        ensures
            final(self).options@ == old(self).options@,
            final(self).disabled == old(self).disabled,
            final(self).selected == if !old(self).disabled && old(self).options@.len() > 0 {
                next_index(old(self).selected as int, old(self).options@.len() as int)
            } else {
                old(self).selected as int
            },
    {
        if !self.disabled && self.options.len() > 0 {
            self.selected = (self.selected + 1) % self.options.len();
        }
    }

    /// Select the previous option, wrapping around.
    pub fn select_prev(&mut self)
        ensures
            final(self).options@ == old(self).options@,
            final(self).disabled == old(self).disabled,
            final(self).selected == if !old(self).disabled && old(self).options@.len() > 0 {
                prev_index(old(self).selected as int, old(self).options@.len() as int)
            } else {
                old(self).selected as int
            },
    {
        if !self.disabled && self.options.len() > 0 {
            self.selected = if self.selected == 0 {
                self.options.len() - 1
            } else {
                self.selected - 1
            };
        }
    }

    /// Label of the selected option, if the selection is in range.
    pub fn selected_label(&self) -> (r: Option<&str>)
        ensures
            match r {
                Some(s) => self.selected < self.options@.len() && s@ == self.options@[self.selected as int]@,
                None => self.selected >= self.options@.len(),
            },
    {
        if self.selected < self.options.len() {
            Some(self.options[self.selected].as_str())
        } else {
            None
        }
    }
}

/// Stepping forward then backward from an in-range index returns to it.
pub proof fn lemma_next_then_prev(i: int, n: int)
    requires
        0 <= i < n,
    ensures
        prev_index(next_index(i, n), n) == i,
        0 <= next_index(i, n) < n,
{
    if i + 1 < n {
        assert((i + 1) % n == i + 1) by (nonlinear_arith)
            requires
                0 <= i + 1 < n,
        ;
    } else {
        assert((i + 1) % n == 0) by (nonlinear_arith)
            requires
                i + 1 == n,
                n > 0,
        ;
    }
}

} // verus!
