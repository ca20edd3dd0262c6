//! Modal dialog state.
use crate::draw::{cmds, lemma_cmds_add, lemma_cmds_push, DrawCmd, DrawOp, ShadowKind};
use crate::layout::{center, center_in_range, center_spec};
use crate::theme::Theme;
use crate::radio::{next_index, prev_index};
use crate::sums::{all_nonneg, lemma_sum_prefix_bounds, lemma_sum_take_all, lemma_sum_take_step, sum_of};
use vstd::prelude::*;

verus! {

/// Width of the dialog panel.
pub const MODAL_WIDTH: u32 = 280;

/// Padding inside the dialog panel.
pub const MODAL_PADDING: u32 = 12;

/// Height of a dialog button.
pub const BUTTON_H: u32 = 22;

/// Width a button adds to its label.
pub const BUTTON_PAD: u32 = 12;

/// Gap between two buttons.
pub const BUTTON_GAP: u32 = 6;

/// Height of the panel: padding, title, a 4-pixel gap, body, padding,
/// the button row and padding again.
pub open spec fn panel_height_spec(title_h: int, body_h: int) -> int {
    3 * MODAL_PADDING + title_h + 4 + body_h + BUTTON_H
}

/// What each button takes up along the row, its trailing gap included.
pub open spec fn button_steps(label_widths: Seq<u32>) -> Seq<int> {
    Seq::new(label_widths.len(), |j: int| label_widths[j] + BUTTON_PAD + BUTTON_GAP)
}

/// Width of the whole button row.
pub open spec fn buttons_width(label_widths: Seq<u32>) -> int {
    if label_widths.len() == 0 {
        0
    } else {
        sum_of(button_steps(label_widths)) - BUTTON_GAP
    }
}

/// Left edge of button `i` in a row that ends at `right`.
pub open spec fn button_left(label_widths: Seq<u32>, right: int, i: int) -> int {
    right - buttons_width(label_widths) + sum_of(button_steps(label_widths).take(i))
}

/// Buttons follow each other left to right, one gap apart, and the last
/// one ends exactly at the right edge of the row.
pub proof fn lemma_buttons_tile(label_widths: Seq<u32>, right: int, i: int)
    requires
        0 <= i < label_widths.len(),
    ensures
        i + 1 < label_widths.len() ==> button_left(label_widths, right, i + 1) == button_left(
            label_widths,
            right,
            i,
        ) + label_widths[i] + BUTTON_PAD + BUTTON_GAP,
        i + 1 == label_widths.len() ==> button_left(label_widths, right, i) + label_widths[i]
            + BUTTON_PAD == right,
{
    let st = button_steps(label_widths);
    lemma_sum_take_step(st, i);
    lemma_sum_take_all(st);
}

/// Every button step is positive.
proof fn lemma_steps_nonneg(label_widths: Seq<u32>)
    ensures
        all_nonneg(button_steps(label_widths)),
{
}

/// Position and size of the dialog panel centred in the area `(x, y, w, h)`,
/// for a title and a body line of the given heights.
pub fn panel_rect(x: i32, y: i32, w: u32, h: u32, title_h: u32, body_h: u32) -> (r: (
    i32,
    i32,
    u32,
    u32,
))
    requires
        panel_height_spec(title_h as int, body_h as int) <= i32::MAX,
        center_in_range(w, MODAL_WIDTH),
        center_in_range(h, panel_height_spec(title_h as int, body_h as int) as u32),
        i32::MIN <= x + center_spec(w, MODAL_WIDTH) <= i32::MAX,
        i32::MIN <= y + center_spec(h, panel_height_spec(title_h as int, body_h as int) as u32)
            <= i32::MAX,
    ensures
        r.0 == x + center_spec(w, MODAL_WIDTH),
        r.1 == y + center_spec(h, panel_height_spec(title_h as int, body_h as int) as u32),
        r.2 == MODAL_WIDTH,
        r.3 == panel_height_spec(title_h as int, body_h as int),
{
    let mh: u32 = MODAL_PADDING + title_h + 4 + body_h + MODAL_PADDING + BUTTON_H + MODAL_PADDING;
    (x + center(w, MODAL_WIDTH), y + center(h, mh), MODAL_WIDTH, mh)
}

/// Left edges of the buttons of a row that ends at `right`, given the
/// width of each button's label; each button is its label plus
/// `BUTTON_PAD` wide and neighbours are `BUTTON_GAP` apart.
pub fn button_lefts(label_widths: &Vec<u32>, right: i32) -> (r: Vec<i32>)
    requires
        buttons_width(label_widths@) <= i32::MAX,
        right - buttons_width(label_widths@) >= i32::MIN,
    ensures
        r@.len() == label_widths@.len(),
        forall|i: int|
            0 <= i < r@.len() ==> #[trigger] r@[i] == button_left(label_widths@, right as int, i),
{
    let n = label_widths.len();
    let ghost st = button_steps(label_widths@);
    proof {
        lemma_steps_nonneg(label_widths@);
        lemma_sum_take_all(st);
    }
    let mut steps_total: u64 = 0;
    let mut j: usize = 0;
    while j < n
        invariant
            n == label_widths@.len(),
            st == button_steps(label_widths@),
            all_nonneg(st),
            sum_of(st.take(n as int)) == sum_of(st),
            0 <= j <= n,
            steps_total == sum_of(st.take(j as int)),
            buttons_width(label_widths@) <= i32::MAX,
        decreases n - j,
    {
        proof {
            lemma_sum_take_step(st, j as int);
            lemma_sum_prefix_bounds(st, j as int + 1);
        }
        steps_total = steps_total + label_widths[j] as u64 + (BUTTON_PAD + BUTTON_GAP) as u64;
        j = j + 1;
    }
    let total: u64 = if n == 0 {
        0
    } else {
        proof {
            lemma_sum_take_step(st, 0);
            lemma_sum_prefix_bounds(st, 1);
        }
        steps_total - BUTTON_GAP as u64
    };
    assert(total == buttons_width(label_widths@));
    let mut lefts: Vec<i32> = Vec::new();
    let mut bx: i64 = right as i64 - total as i64;
    let mut i: usize = 0;
    while i < n
        invariant
            n == label_widths@.len(),
            st == button_steps(label_widths@),
            all_nonneg(st),
            sum_of(st.take(n as int)) == sum_of(st),
            0 <= i <= n,
            lefts@.len() == i,
            forall|k: int|
                0 <= k < i ==> #[trigger] lefts@[k] == button_left(label_widths@, right as int, k),
            bx == button_left(label_widths@, right as int, i as int),
            total == buttons_width(label_widths@),
            total <= i32::MAX,
            right - buttons_width(label_widths@) >= i32::MIN,
        decreases n - i,
    {
        proof {
            lemma_sum_take_step(st, i as int);
            lemma_sum_prefix_bounds(st, i as int);
            lemma_sum_prefix_bounds(st, i as int + 1);
        }
        lefts.push(bx as i32);
        bx = bx + label_widths[i] as i64 + (BUTTON_PAD + BUTTON_GAP) as i64;
        i = i + 1;
    }
    lefts
}

/// A dialog with a title, a body and a row of buttons, one of them focused.
pub struct Modal {
    /// Title text.
    pub title: String,
    /// Body text.
    pub body: String,
    /// Button labels, left to right.
    pub buttons: Vec<String>,
    /// Index of the focused button.
    pub focused_button: usize,
    /// Whether a dimming backdrop is drawn behind the dialog.
    pub show_backdrop: bool,
}

/// What button `i` of a dialog draws on the button row at `by`, for rows
/// ending at `right`: its background (accent when focused) and its label
/// centred in it.
pub open spec fn modal_button_ops(
    m: Modal,
    theme: Theme,
    right: int,
    by: int,
    body_h: u32,
    widths: Seq<u32>,
    i: int,
) -> Seq<DrawCmd> {
    let bx = button_left(widths, right, i);
    let tw = widths[i];
    let bw = (tw + BUTTON_PAD) as u32;
    let focused = i == m.focused_button;
    seq![
        DrawCmd::FillRoundedRect {
            x: bx as i32,
            y: by as i32,
            w: bw,
            h: BUTTON_H,
            radius: theme.border_radius_md,
            color: if focused {
                theme.accent
            } else {
                theme.button_bg
            },
        },
        DrawCmd::Text {
            text: m.buttons@[i]@,
            x: (bx + center_spec(bw, tw)) as i32,
            y: (by + center_spec(BUTTON_H, body_h)) as i32,
            font_size: theme.font_size_md,
            color: if focused {
                theme.text_on_accent
            } else {
                theme.text_primary
            },
        },
    ]
}

/// The operations of the first `k` buttons.
pub open spec fn modal_buttons_ops(
    m: Modal,
    theme: Theme,
    right: int,
    by: int,
    body_h: u32,
    widths: Seq<u32>,
    k: nat,
) -> Seq<DrawCmd>
    decreases k,
{
    if k == 0 {
        Seq::empty()
    } else {
        modal_buttons_ops(m, theme, right, by, body_h, widths, (k - 1) as nat) + modal_button_ops(
            m,
            theme,
            right,
            by,
            body_h,
            widths,
            k - 1,
        )
    }
}

/// Everything a dialog draws over the area `(x, y, w, h)`, given the
/// heights of the title and body fonts and the width of each button label:
/// the backdrop (when shown), the centred panel with its shadow and
/// border, the title, the body wrapped to the panel, and the buttons
/// right-aligned on the bottom row.
pub open spec fn modal_ops(
    m: Modal,
    theme: Theme,
    x: i32,
    y: i32,
    w: u32,
    h: u32,
    title_h: u32,
    body_h: u32,
    widths: Seq<u32>,
) -> Seq<DrawCmd> {
    let mh = panel_height_spec(title_h as int, body_h as int);
    let mx = x + center_spec(w, MODAL_WIDTH);
    let my = y + center_spec(h, mh as u32);
    let r = theme.border_radius_lg;
    let backdrop = if m.show_backdrop {
        seq![DrawCmd::FillRect { x, y, w, h, color: theme.overlay }]
    } else {
        Seq::empty()
    };
    let by = my + MODAL_PADDING + title_h + 4 + body_h + MODAL_PADDING;
    backdrop + seq![
        DrawCmd::Shadow {
            x: mx as i32,
            y: my as i32,
            w: MODAL_WIDTH,
            h: mh as u32,
            radius: r,
            kind: ShadowKind::Modal,
        },
        DrawCmd::FillRoundedRect {
            x: mx as i32,
            y: my as i32,
            w: MODAL_WIDTH,
            h: mh as u32,
            radius: r,
            color: theme.surface,
        },
        DrawCmd::StrokeRoundedRect {
            x: mx as i32,
            y: my as i32,
            w: MODAL_WIDTH,
            h: mh as u32,
            radius: r,
            width: 1,
            color: theme.border_subtle,
        },
        DrawCmd::Text {
            text: m.title@,
            x: (mx + MODAL_PADDING) as i32,
            y: (my + MODAL_PADDING) as i32,
            font_size: theme.font_size_lg,
            color: theme.text_primary,
        },
        DrawCmd::TextWrapped {
            text: m.body@,
            x: (mx + MODAL_PADDING) as i32,
            y: (my + MODAL_PADDING + title_h + 4) as i32,
            font_size: theme.font_size_md,
            color: theme.text_secondary,
            max_w: (MODAL_WIDTH - 2 * MODAL_PADDING) as u32,
            line_h: 0,
        },
    ] + modal_buttons_ops(m, theme, mx + MODAL_WIDTH - MODAL_PADDING, by, body_h, widths, m.buttons@.len())
}

/// Whether drawing the dialog over `(x, y, w, h)` stays inside `i32`
/// arithmetic.
pub open spec fn modal_draw_fits(
    m: Modal,
    x: i32,
    y: i32,
    w: u32,
    h: u32,
    title_h: u32,
    body_h: u32,
    widths: Seq<u32>,
) -> bool {
    let mh = panel_height_spec(title_h as int, body_h as int);
    let mx = x + center_spec(w, MODAL_WIDTH);
    let my = y + center_spec(h, mh as u32);
    &&& mh <= i32::MAX
    &&& center_in_range(w, MODAL_WIDTH)
    &&& center_in_range(h, mh as u32)
    &&& i32::MIN <= mx && mx + MODAL_WIDTH <= i32::MAX
    &&& i32::MIN <= my && my + mh <= i32::MAX
    &&& widths.len() == m.buttons@.len()
    &&& forall|i: int| 0 <= i < widths.len() ==> #[trigger] widths[i] + BUTTON_PAD <= i32::MAX
    &&& buttons_width(widths) <= i32::MAX
    &&& mx + MODAL_WIDTH - MODAL_PADDING - buttons_width(widths) >= i32::MIN
}

impl Modal {
    /// Create an alert dialog with a single "OK" button.
    pub fn new(title: &str, body: &str) -> (r: Self)
        ensures
            r.title@ == title@,
            r.body@ == body@,
            r.buttons@.len() == 1,
            r.buttons@[0]@ == "OK"@,
            r.focused_button == 0,
            r.show_backdrop,
    {
        let mut buttons: Vec<String> = Vec::new();
        buttons.push("OK".to_string());
        Modal {
            title: title.to_string(),
            body: body.to_string(),
            buttons,
            focused_button: 0,
            show_backdrop: true,
        }
    }

    /// Create a confirmation dialog with "Cancel" and "OK", "OK" focused.
    pub fn confirm(title: &str, body: &str) -> (r: Self)
        ensures
            r.title@ == title@,
            r.body@ == body@,
            r.buttons@.len() == 2,
            r.buttons@[0]@ == "Cancel"@,
            r.buttons@[1]@ == "OK"@,
            r.focused_button == 1,
            r.show_backdrop,
    {
        let mut buttons: Vec<String> = Vec::new();
        buttons.push("Cancel".to_string());
        buttons.push("OK".to_string());
        Modal {
            title: title.to_string(),
            body: body.to_string(),
            buttons,
            focused_button: 1,
            show_backdrop: true,
        }
    }

    /// What drawing the dialog over the area `(x, y, w, h)` asks the
    /// renderer to draw, given the heights of the title and body fonts and
    /// the width of each button's label.
    #[verifier::rlimit(50)]
    pub fn draw(
        &self,
        theme: &Theme,
        x: i32,
        y: i32,
        w: u32,
        h: u32,
        title_h: u32,
        body_h: u32,
        label_widths: &Vec<u32>,
    ) -> (r: Vec<DrawOp>)
        requires
            modal_draw_fits(*self, x, y, w, h, title_h, body_h, label_widths@),
        ensures
            cmds(r@) == modal_ops(*self, *theme, x, y, w, h, title_h, body_h, label_widths@),
    {
        let (mx, my, mw, mh) = panel_rect(x, y, w, h, title_h, body_h);
        let radius = theme.border_radius_lg;
        let mut out: Vec<DrawOp> = Vec::new();
        if self.show_backdrop {
            let op = DrawOp::FillRect { x, y, w, h, color: theme.overlay };
            proof {
                lemma_cmds_push(out@, op);
            }
            out.push(op);
        }
        let mut panel: Vec<DrawOp> = Vec::new();
        panel.push(DrawOp::Shadow { x: mx, y: my, w: mw, h: mh, radius, kind: ShadowKind::Modal });
        panel.push(DrawOp::FillRoundedRect { x: mx, y: my, w: mw, h: mh, radius, color: theme.surface });
        panel.push(
            DrawOp::StrokeRoundedRect {
                x: mx,
                y: my,
                w: mw,
                h: mh,
                radius,
                width: 1,
                color: theme.border_subtle,
            },
        );
        let pad = MODAL_PADDING as i32;
        panel.push(
            DrawOp::Text {
                text: self.title.clone(),
                x: mx + pad,
                y: my + pad,
                font_size: theme.font_size_lg,
                color: theme.text_primary,
            },
        );
        let body_y = my + pad + title_h as i32 + 4;
        panel.push(
            DrawOp::TextWrapped {
                text: self.body.clone(),
                x: mx + pad,
                y: body_y,
                font_size: theme.font_size_md,
                color: theme.text_secondary,
                max_w: MODAL_WIDTH - 2 * MODAL_PADDING,
                line_h: 0,
            },
        );
        proof {
            lemma_cmds_add(out@, panel@);
        }
        out.append(&mut panel);
        let by = body_y + body_h as i32 + pad;
        let right = mx + mw as i32 - pad;
        let lefts = button_lefts(label_widths, right);
        let ghost head = cmds(out@);
        assert(center_in_range(BUTTON_H, body_h));
        let ty = center(BUTTON_H, body_h);
        assert(0 <= ty <= BUTTON_H);
        let n = self.buttons.len();
        let mut i: usize = 0;
        while i < n
            invariant
                n == self.buttons@.len(),
                n == label_widths@.len(),
                i <= n,
                lefts@.len() == n,
                forall|k: int|
                    0 <= k < n ==> #[trigger] lefts@[k] == button_left(label_widths@, right as int, k),
                modal_draw_fits(*self, x, y, w, h, title_h, body_h, label_widths@),
                right == mx + MODAL_WIDTH - MODAL_PADDING,
                ty == center_spec(BUTTON_H, body_h),
                0 <= ty <= BUTTON_H,
                my == y + center_spec(h, panel_height_spec(title_h as int, body_h as int) as u32),
                by == my + MODAL_PADDING + title_h + 4 + body_h + MODAL_PADDING,
                cmds(out@) == head + modal_buttons_ops(*self, *theme, right as int, by as int, body_h, label_widths@, i as nat),
            decreases n - i,
        {
            let tw = label_widths[i];
            let bw = tw + BUTTON_PAD;
            let bx = lefts[i];
            proof {
                crate::modal::lemma_button_in_row(label_widths@, right as int, i as int);
            }
            let focused = i == self.focused_button;
            let mut ops: Vec<DrawOp> = Vec::new();
            ops.push(
                DrawOp::FillRoundedRect {
                    x: bx,
                    y: by,
                    w: bw,
                    h: BUTTON_H,
                    radius: theme.border_radius_md,
                    color: if focused {
                        theme.accent
                    } else {
                        theme.button_bg
                    },
                },
            );
            assert(center_in_range(bw, tw));
            let tx = center(bw, tw);
            ops.push(
                DrawOp::Text {
                    text: self.buttons[i].clone(),
                    x: bx + tx,
                    y: by + ty,
                    font_size: theme.font_size_md,
                    color: if focused {
                        theme.text_on_accent
                    } else {
                        theme.text_primary
                    },
                },
            );
            assert(cmds(ops@) =~= modal_button_ops(*self, *theme, right as int, by as int, body_h, label_widths@, i as int));
            proof {
                lemma_cmds_add(out@, ops@);
            }
            out.append(&mut ops);
            i = i + 1;
        }
        out
    }

    /// Move focus to the next button, wrapping around.
    pub fn focus_next(&mut self)
        requires
            old(self).focused_button < usize::MAX,
        ensures
            final(self).buttons@ == old(self).buttons@,
            final(self).title@ == old(self).title@,
            final(self).body@ == old(self).body@,
            final(self).show_backdrop == old(self).show_backdrop,
            final(self).focused_button == if old(self).buttons@.len() > 0 {
                next_index(old(self).focused_button as int, old(self).buttons@.len() as int)
            } else {
                old(self).focused_button as int
            },
    {
        if self.buttons.len() > 0 {
            self.focused_button = (self.focused_button + 1) % self.buttons.len();
        }
    }

    /// Move focus to the previous button, wrapping around.
    pub fn focus_prev(&mut self)
        ensures
            final(self).buttons@ == old(self).buttons@,
            final(self).title@ == old(self).title@,
            final(self).body@ == old(self).body@,
            final(self).show_backdrop == old(self).show_backdrop,
            final(self).focused_button == if old(self).buttons@.len() > 0 {
                prev_index(old(self).focused_button as int, old(self).buttons@.len() as int)
            } else {
                old(self).focused_button as int
            },
    {
        if self.buttons.len() > 0 {
            self.focused_button = if self.focused_button == 0 {
                self.buttons.len() - 1
            } else {
                self.focused_button - 1
            };
        }
    }

    /// Label of the focused button, if focus is in range.
    pub fn focused_label(&self) -> (r: Option<&str>)
        ensures
            match r {
                Some(s) => self.focused_button < self.buttons@.len() && s@
                    == self.buttons@[self.focused_button as int]@,
                None => self.focused_button >= self.buttons@.len(),
            },
    {
        if self.focused_button < self.buttons.len() {
            Some(self.buttons[self.focused_button].as_str())
        } else {
            None
        }
    }
}

/// Each button lies inside its row: it starts at or after the row's start
/// and ends at or before its right edge.
pub proof fn lemma_button_in_row(label_widths: Seq<u32>, right: int, i: int)
    requires
        0 <= i < label_widths.len(),
    ensures
        right - buttons_width(label_widths) <= button_left(label_widths, right, i),
        button_left(label_widths, right, i) + label_widths[i] + BUTTON_PAD <= right,
{
    let st = button_steps(label_widths);
    lemma_steps_nonneg(label_widths);
    lemma_sum_prefix_bounds(st, i);
    lemma_sum_prefix_bounds(st, i + 1);
    lemma_sum_take_step(st, i);
    lemma_sum_take_all(st);
    if i + 1 < label_widths.len() {
        lemma_sum_prefix_bounds(st, label_widths.len() as int);
        lemma_sum_rest_nonneg(st, i + 1);
    }
}

/// The entries after a prefix add up to at least the last one.
proof fn lemma_sum_rest_nonneg(st: Seq<int>, k: int)
    requires
        0 <= k < st.len(),
        all_nonneg(st),
    ensures
        sum_of(st.take(k)) + st[st.len() - 1] <= sum_of(st),
    decreases st.len() - k,
{
    assert(st.drop_last().len() == st.len() - 1);
    if k == st.len() - 1 {
        assert(st.take(k) =~= st.drop_last());
    } else {
        assert(all_nonneg(st.drop_last()));
        lemma_sum_prefix_bounds(st.drop_last(), k);
        assert(st.drop_last().take(k) =~= st.take(k));
    }
}

} // verus!
