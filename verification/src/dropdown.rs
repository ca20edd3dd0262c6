//! Dropdown / combobox widget state.
use crate::radio::{next_index, prev_index};
use crate::color::Color;
use crate::draw::{cmds, focus_ring_op, lemma_cmds_add, theme_focus_style, DrawCmd, DrawOp, ShadowKind};
use crate::focus::FocusStyle;
use crate::layout::{center, center_in_range, center_spec, sat_sub};
use crate::states::{border_spec, from_flags_spec, WidgetState, WidgetStateColors};
use crate::text::push_char;
use crate::theme::Theme;
use vstd::prelude::*;

verus! {

/// A closed header showing the selection, which opens into a list of options.
pub struct Dropdown {
    /// Option labels.
    pub options: Vec<String>,
    /// Index of the selected option.
    pub selected: usize,
    /// Whether the option list is shown.
    pub open: bool,
    /// Text shown when the selection is out of range.
    pub placeholder: String,
    /// Whether the dropdown has keyboard focus.
    pub focused: bool,
    /// Whether the pointer hovers the header.
    pub hovered: bool,
    /// Whether the header is pressed.
    pub pressed: bool,
    /// Whether the dropdown ignores interaction.
    pub disabled: bool,
    /// Option row under the pointer while open.
    pub hovered_index: Option<usize>,
}

/// Height of one row (the header or an option) for a given text height.
pub open spec fn dropdown_row_height(text_h: u32) -> int {
    text_h + 6
}

/// The option under vertical offset `dy` from the top of an open dropdown:
/// rows below the header are options, one per row height.
pub open spec fn option_at_spec(open: bool, n: nat, text_h: u32, dy: i32) -> Option<usize> {
    let row_h = dropdown_row_height(text_h);
    let rel = dy - row_h;
    if !open || rel < 0 || rel / row_h >= n {
        None
    } else {
        Some((rel / row_h) as usize)
    }
}

/// Fills of an option row, by whether the row is the selected option and
/// whether the pointer is over it (`None`: the row is not filled).
#[derive(Debug, Clone, Copy)]
pub struct RowColors {
    /// Neither selected nor hovered.
    pub plain: Option<Color>,
    /// Hovered, not selected.
    pub hovered: Option<Color>,
    /// Selected, not hovered.
    pub selected: Option<Color>,
    /// Selected and hovered.
    pub selected_hovered: Option<Color>,
}

/// The fill of a row that is or is not selected and hovered.
pub open spec fn row_fill(rc: RowColors, selected: bool, hovered: bool) -> Option<Color> {
    if selected {
        if hovered {
            rc.selected_hovered
        } else {
            rc.selected
        }
    } else if hovered {
        rc.hovered
    } else {
        rc.plain
    }
}

/// The arrow at the right of the header: up while open, down while closed.
pub open spec fn dropdown_arrow(open: bool) -> Seq<char> {
    if open {
        seq!['\u{25B2}']
    } else {
        seq!['\u{25BC}']
    }
}

/// Text shown in the header: the selected option, or the placeholder when
/// the selection is out of range.
pub open spec fn header_text(d: Dropdown) -> Seq<char> {
    if d.selected < d.options@.len() {
        d.options@[d.selected as int]@
    } else {
        d.placeholder@
    }
}

/// What option row `i` of the open list draws: its fill, if any, then its
/// text (accented when selected).
pub open spec fn option_ops(
    d: Dropdown,
    theme: Theme,
    rc: RowColors,
    x: i32,
    y: i32,
    w: u32,
    text_h: u32,
    i: int,
) -> Seq<DrawCmd> {
    let row_h = text_h + 6;
    let iy = y + row_h + i * row_h;
    let fill = match row_fill(rc, i == d.selected, d.hovered_index == Some(i as usize)) {
        Some(c) => seq![
            DrawCmd::FillRect {
                x: (x + 1) as i32,
                y: iy as i32,
                w: sat_sub(w as int, 2) as u32,
                h: row_h as u32,
                color: c,
            },
        ],
        None => Seq::empty(),
    };
    fill + seq![
        DrawCmd::TextEllipsis {
            text: d.options@[i]@,
            x: (x + 6) as i32,
            y: (iy + center_spec(row_h as u32, text_h)) as i32,
            font_size: theme.font_size_md,
            color: if i == d.selected {
                theme.accent
            } else {
                theme.text_primary
            },
            max_w: sat_sub(w as int, 12) as u32,
        },
    ]
}

/// The operations of the first `k` option rows.
pub open spec fn options_ops(
    d: Dropdown,
    theme: Theme,
    rc: RowColors,
    x: i32,
    y: i32,
    w: u32,
    text_h: u32,
    k: nat,
) -> Seq<DrawCmd>
    decreases k,
{
    if k == 0 {
        Seq::empty()
    } else {
        options_ops(d, theme, rc, x, y, w, text_h, (k - 1) as nat) + option_ops(
            d,
            theme,
            rc,
            x,
            y,
            w,
            text_h,
            k - 1,
        )
    }
}

/// What the header row draws: its fill and border, the focus ring when
/// focused, the header text cut to the row, and the arrow.
pub open spec fn header_ops(
    d: Dropdown,
    theme: Theme,
    header_bg: Color,
    x: i32,
    y: i32,
    w: u32,
    text_h: u32,
    arrow_w: u32,
) -> Seq<DrawCmd> {
    let row_h = (text_h + 6) as u32;
    let ty = y + center_spec(row_h, text_h);
    let radius = theme.border_radius_md;
    let state = from_flags_spec(d.hovered, d.pressed, d.disabled);
    let border = if state == WidgetState::Disabled {
        border_spec(theme, state)
    } else {
        theme.input_border
    };
    let ring = if d.focused && !d.disabled {
        seq![focus_ring_op(theme_focus_style(theme), x, y, w, row_h)]
    } else {
        Seq::empty()
    };
    seq![
        DrawCmd::FillRoundedRect { x, y, w, h: row_h, radius, color: header_bg },
        DrawCmd::StrokeRoundedRect { x, y, w, h: row_h, radius, width: 1, color: border },
    ] + ring + seq![
        DrawCmd::TextEllipsis {
            text: header_text(d),
            x: (x + 6) as i32,
            y: ty as i32,
            font_size: theme.font_size_md,
            color: if d.options@.len() == 0 || d.disabled {
                theme.text_disabled
            } else {
                theme.text_primary
            },
            max_w: sat_sub(w as int, 20) as u32,
        },
        DrawCmd::Text {
            text: dropdown_arrow(d.open),
            x: (x + w - arrow_w - 4) as i32,
            y: ty as i32,
            font_size: theme.font_size_md,
            color: theme.text_secondary,
        },
    ]
}

/// Everything a dropdown draws at `(x, y, w, h)`: the header and, while
/// open with options, the list panel below it (shadow, surface, border)
/// and each option row.
pub open spec fn dropdown_ops(
    d: Dropdown,
    theme: Theme,
    header_bg: Color,
    rc: RowColors,
    x: i32,
    y: i32,
    w: u32,
    h: u32,
    text_h: u32,
    arrow_w: u32,
) -> Seq<DrawCmd> {
    let row_h = text_h + 6;
    let n = d.options@.len();
    let radius = theme.border_radius_md;
    header_ops(d, theme, header_bg, x, y, w, text_h, arrow_w) + if d.open && n > 0 {
        let my = (y + row_h) as i32;
        let mh = sat_sub(h as int, row_h) as u32;
        seq![
            DrawCmd::Shadow { x, y: my, w, h: mh, radius, kind: ShadowKind::Dropdown },
            DrawCmd::FillRoundedRect { x, y: my, w, h: mh, radius, color: theme.surface },
            DrawCmd::StrokeRoundedRect {
                x,
                y: my,
                w,
                h: mh,
                radius,
                width: 1,
                color: theme.border_subtle,
            },
        ] + options_ops(d, theme, rc, x, y, w, text_h, n)
    } else {
        Seq::empty()
    }
}

/// Whether drawing the dropdown at `(x, y)` of width `w` stays inside
/// `i32` arithmetic.
pub open spec fn dropdown_draw_fits(d: Dropdown, x: i32, y: i32, w: u32, text_h: u32, arrow_w: u32) -> bool {
    &&& text_h + 6 <= i32::MAX
    &&& w <= i32::MAX
    &&& arrow_w <= i32::MAX
    &&& x + w <= i32::MAX
    &&& x + 6 <= i32::MAX
    &&& x - arrow_w - 4 >= i32::MIN
    &&& d.options@.len() * (text_h + 6) <= i32::MAX
    &&& y + (d.options@.len() + 1) * (text_h + 6) <= i32::MAX
}

impl Dropdown {
    /// Create a closed, enabled dropdown with the first option selected.
    pub fn new(options: Vec<String>) -> (r: Self)
        ensures
            r.options@ == options@,
            r.selected == 0,
            !r.open,
            r.placeholder@ == Seq::<char>::empty(),
            !r.focused,
            !r.hovered,
            !r.pressed,
            !r.disabled,
            r.hovered_index.is_none(),
    {
        Dropdown {
            options,
            selected: 0,
            open: false,
            placeholder: String::new(),
            focused: false,
            hovered: false,
            pressed: false,
            disabled: false,
            hovered_index: None,
        }
    }

    /// The interaction state of the header.
    pub fn state(&self) -> (r: WidgetState)
        ensures
            r == from_flags_spec(self.hovered, self.pressed, self.disabled),
    {
        WidgetState::from_flags(self.hovered, self.pressed, self.disabled)
    }

    /// The option row under vertical offset `dy` (relative to the widget's
    /// top), for rows of `text_h + 6` pixels; `None` when closed, on the
    /// header, or past the last option.
    pub fn option_at(&self, text_h: u32, dy: i32) -> (r: Option<usize>)
        requires
            self.open ==> text_h + 6 <= i32::MAX,
            self.open ==> dy - (text_h + 6) >= i32::MIN,
        ensures
            r == option_at_spec(self.open, self.options@.len(), text_h, dy),
    {
        if !self.open {
            return None;
        }
        let row_h = (text_h + 6) as i32;
        let rel = dy - row_h;
        if rel < 0 {
            return None;
        }
        let i = (rel / row_h) as usize;
        if i < self.options.len() {
            Some(i)
        } else {
            None
        }
    }

    /// Text of the selected option, or the placeholder when the selection is
    /// out of range.
    pub fn selected_text(&self) -> (r: &str)
        ensures
            r@ == if self.selected < self.options@.len() {
                self.options@[self.selected as int]@
            } else {
                self.placeholder@
            },
    {
        if self.selected < self.options.len() {
            self.options[self.selected].as_str()
        } else {
            self.placeholder.as_str()
        }
    }

    /// What drawing the dropdown at `(x, y, w, h)` asks the renderer to draw,
    /// given the header fill for its state, the option row fills, the text
    /// height and the width of the arrow.
    #[verifier::rlimit(50)]
    pub fn draw(
        &self,
        theme: &Theme,
        header_bg: Color,
        rows: &RowColors,
        x: i32,
        y: i32,
        w: u32,
        h: u32,
        text_h: u32,
        arrow_w: u32,
    ) -> (r: Vec<DrawOp>)
        requires
            dropdown_draw_fits(*self, x, y, w, text_h, arrow_w),
        ensures
            cmds(r@) == dropdown_ops(*self, *theme, header_bg, *rows, x, y, w, h, text_h, arrow_w),
    {
        let n = self.options.len();
        let row_h: u32 = text_h + 6;
        proof {
            lemma_row_span(n as int, row_h as int, 0);
        }
        assert(center_in_range(row_h, text_h));
        let ty = center(row_h, text_h);
        assert(0 <= ty <= row_h);
        let radius = theme.border_radius_md;
        let fs = theme.font_size_md;
        let state = self.state();
        let mut out: Vec<DrawOp> = Vec::new();
        out.push(DrawOp::FillRoundedRect { x, y, w, h: row_h, radius, color: header_bg });
        let border = if state.is_disabled() {
            WidgetStateColors::border(theme, state)
        } else {
            theme.input_border
        };
        out.push(DrawOp::StrokeRoundedRect { x, y, w, h: row_h, radius, width: 1, color: border });
        if self.focused && !self.disabled {
            let style = FocusStyle::from_theme(theme);
            assert(style == theme_focus_style(*theme));
            out.push(style.draw(x, y, w, row_h));
        }
        let label = String::from_str(self.selected_text());
        out.push(
            DrawOp::TextEllipsis {
                text: label,
                x: x + 6,
                y: y + ty,
                font_size: fs,
                color: if self.options.len() == 0 || self.disabled {
                    theme.text_disabled
                } else {
                    theme.text_primary
                },
                max_w: if w >= 20 {
                    w - 20
                } else {
                    0
                },
            },
        );
        let mut arrow = String::new();
        if self.open {
            push_char(&mut arrow, '\u{25B2}');
        } else {
            push_char(&mut arrow, '\u{25BC}');
        }
        assert(arrow@ =~= dropdown_arrow(self.open));
        out.push(
            DrawOp::Text {
                text: arrow,
                x: x + w as i32 - arrow_w as i32 - 4,
                y: y + ty,
                font_size: fs,
                color: theme.text_secondary,
            },
        );
        assert(cmds(out@) =~= header_ops(*self, *theme, header_bg, x, y, w, text_h, arrow_w));
        if !self.open || n == 0 {
            assert(cmds(out@) =~= dropdown_ops(*self, *theme, header_bg, *rows, x, y, w, h, text_h, arrow_w));
            return out;
        }
        let menu_y = y + row_h as i32;
        let menu_h = if h >= row_h {
            h - row_h
        } else {
            0
        };
        out.push(DrawOp::Shadow { x, y: menu_y, w, h: menu_h, radius, kind: ShadowKind::Dropdown });
        out.push(DrawOp::FillRoundedRect { x, y: menu_y, w, h: menu_h, radius, color: theme.surface });
        out.push(
            DrawOp::StrokeRoundedRect {
                x,
                y: menu_y,
                w,
                h: menu_h,
                radius,
                width: 1,
                color: theme.border_subtle,
            },
        );
        let ghost panel = cmds(out@);
        let mut i: usize = 0;
        while i < n
            invariant
                n == self.options@.len(),
                i <= n,
                dropdown_draw_fits(*self, x, y, w, text_h, arrow_w),
                row_h == text_h + 6,
                ty == center_spec(row_h, text_h),
                0 <= ty <= row_h,
                fs == theme.font_size_md,
                menu_y == y + row_h,
                cmds(out@) == panel + options_ops(*self, *theme, *rows, x, y, w, text_h, i as nat),
            decreases n - i,
        {
            proof {
                lemma_row_span(n as int, row_h as int, i as int);
                lemma_row_span(n as int, row_h as int, i as int + 1);
            }
            let iy = menu_y + (i as u32 * row_h) as i32;
            let mut ops: Vec<DrawOp> = Vec::new();
            let hovered = match self.hovered_index {
                Some(k) => k == i,
                None => false,
            };
            let is_sel = i == self.selected;
            let fill = if is_sel {
                if hovered {
                    rows.selected_hovered
                } else {
                    rows.selected
                }
            } else if hovered {
                rows.hovered
            } else {
                rows.plain
            };
            match fill {
                Some(c) => {
                    ops.push(
                        DrawOp::FillRect {
                            x: x + 1,
                            y: iy,
                            w: if w >= 2 {
                                w - 2
                            } else {
                                0
                            },
                            h: row_h,
                            color: c,
                        },
                    );
                },
                None => {},
            }
            ops.push(
                DrawOp::TextEllipsis {
                    text: self.options[i].clone(),
                    x: x + 6,
                    y: iy + ty,
                    font_size: fs,
                    color: if is_sel {
                        theme.accent
                    } else {
                        theme.text_primary
                    },
                    max_w: if w >= 12 {
                        w - 12
                    } else {
                        0
                    },
                },
            );
            assert(cmds(ops@) =~= option_ops(*self, *theme, *rows, x, y, w, text_h, i as int));
            proof {
                lemma_cmds_add(out@, ops@);
            }
            out.append(&mut ops);
            i = i + 1;
        }
        assert(cmds(out@) =~= dropdown_ops(*self, *theme, header_bg, *rows, x, y, w, h, text_h, arrow_w));
        out
    }

    /// Select the next option, wrapping around.
    pub fn select_next(&mut self)
        requires
            old(self).selected < usize::MAX,
        ensures
            final(self).options@ == old(self).options@,
            final(self).open == old(self).open,
            final(self).disabled == old(self).disabled,
            final(self).placeholder@ == old(self).placeholder@,
            final(self).focused == old(self).focused,
            final(self).hovered == old(self).hovered,
            final(self).pressed == old(self).pressed,
            final(self).hovered_index == old(self).hovered_index,
            final(self).selected == if old(self).options@.len() > 0 {
                next_index(old(self).selected as int, old(self).options@.len() as int)
            } else {
                old(self).selected as int
            },
    {
        if self.options.len() > 0 {
            self.selected = (self.selected + 1) % self.options.len();
        }
    }

    /// Select the previous option, wrapping around.
    pub fn select_prev(&mut self)
        ensures
            final(self).options@ == old(self).options@,
            final(self).open == old(self).open,
            final(self).disabled == old(self).disabled,
            final(self).placeholder@ == old(self).placeholder@,
            final(self).focused == old(self).focused,
            final(self).hovered == old(self).hovered,
            final(self).pressed == old(self).pressed,
            final(self).hovered_index == old(self).hovered_index,
            final(self).selected == if old(self).options@.len() > 0 {
                prev_index(old(self).selected as int, old(self).options@.len() as int)
            } else {
                old(self).selected as int
            },
    {
        if self.options.len() > 0 {
            self.selected = if self.selected == 0 {
                self.options.len() - 1
            } else {
                self.selected - 1
            };
        }
    }

    /// Open or close the option list. A disabled dropdown always closes;
    /// closing forgets the hovered row.
    pub fn toggle(&mut self)
        ensures
            final(self).options@ == old(self).options@,
            final(self).selected == old(self).selected,
            final(self).disabled == old(self).disabled,
            final(self).placeholder@ == old(self).placeholder@,
            final(self).focused == old(self).focused,
            final(self).hovered == old(self).hovered,
            final(self).pressed == old(self).pressed,
            final(self).open == (!old(self).disabled && !old(self).open),
            final(self).hovered_index == if !old(self).disabled && old(self).open {
                None
            } else {
                old(self).hovered_index
            },
    {
        if self.disabled {
            self.open = false;
            return;
        }
        self.open = !self.open;
        if !self.open {
            self.hovered_index = None;
        }
    }
}

/// Row `i` of `n` rows of height `row_h` starts within the first
/// `(n + 1) * row_h` pixels, one row below the header.
proof fn lemma_row_span(n: int, row_h: int, i: int)
    requires
        0 <= i <= n,
        row_h >= 0,
    ensures
        0 <= i * row_h <= n * row_h,
        row_h >= 1 ==> i <= i * row_h,
        (n + 1) * row_h == row_h + n * row_h,
        (i + 1) * row_h == i * row_h + row_h,
{
    assert(0 <= i * row_h <= n * row_h) by (nonlinear_arith)
        requires
            0 <= i <= n,
            row_h >= 0,
    ;
    assert(row_h >= 1 ==> i <= i * row_h) by (nonlinear_arith)
        requires
            0 <= i,
    ;
    assert((n + 1) * row_h == row_h + n * row_h) by (nonlinear_arith);
    assert((i + 1) * row_h == i * row_h + row_h) by (nonlinear_arith);
}

} // verus!
