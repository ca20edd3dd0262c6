//! Tab bar state and hit testing.
use crate::color::Color;
use crate::draw::{cmds, focus_ring_op, lemma_cmds_add, theme_focus_style, DrawCmd, DrawOp};
use crate::focus::FocusStyle;
use crate::layout::{as_i32, center, center_in_range, center_spec, sat_sub};
use crate::states::{accent_bg_spec, from_flags_spec, WidgetState, WidgetStateColors};
use crate::theme::Theme;
use vstd::prelude::*;

verus! {

/// Visual style of the tab bar.
#[derive(Debug, Clone, Copy, PartialEq, Eq, Structural)]
pub enum TabStyle {
    /// A line under the active tab.
    Underline,
    /// The active tab is filled.
    Filled,
    /// The active tab is a rounded pill.
    Pill,
}

/// A row of tabs sharing the available width.
pub struct TabBar {
    /// Tab labels, left to right.
    pub tabs: Vec<String>,
    /// Index of the active tab.
    pub active: usize,
    /// Visual style.
    pub style: TabStyle,
    /// Whether the bar ignores selection.
    pub disabled: bool,
    /// Whether the bar has keyboard focus.
    pub focused: bool,
    /// Tab under the pointer.
    pub hovered: Option<usize>,
    /// Whether the hovered tab is pressed.
    pub pressed: bool,
}

/// Left edge of tab `i` when `w` pixels are shared among `n` tabs: each tab
/// is `w / n` wide and the first `w % n` tabs are one pixel wider.
pub open spec fn tab_start(w: int, n: int, i: int) -> int {
    let q = w / n;
    let r = w % n;
    i * q + if i < r {
        i
    } else {
        r
    }
}

/// Width of tab `i` when `w` pixels are shared among `n` tabs.
pub open spec fn tab_width(w: int, n: int, i: int) -> int {
    w / n + if i < w % n {
        1int
    } else {
        0int
    }
}

/// Interaction state of tab `i`.
pub open spec fn tab_state_spec(bar: TabBar, i: int) -> WidgetState {
    from_flags_spec(
        bar.hovered == Some(i as usize),
        bar.hovered == Some(i as usize) && bar.pressed,
        bar.disabled,
    )
}

/// Color of tab `i`'s label: the accent (underline style) or the text on
/// accent (filled and pill styles) for the active tab, otherwise disabled
/// or secondary text.
pub open spec fn tab_label_color(bar: TabBar, theme: Theme, i: int) -> Color {
    if i == bar.active {
        match bar.style {
            TabStyle::Underline => theme.accent,
            _ => theme.text_on_accent,
        }
    } else if bar.disabled {
        theme.text_disabled
    } else {
        theme.text_secondary
    }
}

/// What tab `i` draws in a bar at `(x, y, w, h)`: a hover fill on an
/// inactive tab that is hovered or pressed, the active tab's style mark
/// (underline, fill or pill), the focus ring around the active tab when the
/// bar has focus, then the label centred in the tab.
pub open spec fn tab_ops(
    bar: TabBar,
    theme: Theme,
    hover_bg: Color,
    x: i32,
    y: i32,
    w: u32,
    h: u32,
    text_h: u32,
    widths: Seq<u32>,
    i: int,
) -> Seq<DrawCmd> {
    let n = bar.tabs@.len() as int;
    let tx = x + tab_start(w as int, n, i);
    let tw = tab_width(w as int, n, i);
    let active = i == bar.active;
    let state = tab_state_spec(bar, i);
    let fill = accent_bg_spec(theme, state);
    let hover = if !active && (state == WidgetState::Hover || state == WidgetState::Pressed) {
        seq![
            DrawCmd::FillRoundedRect {
                x: (tx + 2) as i32,
                y: (y + 2) as i32,
                w: sat_sub(tw, 4) as u32,
                h: sat_sub(h as int, 4) as u32,
                radius: theme.border_radius_sm,
                color: hover_bg,
            },
        ]
    } else {
        Seq::empty()
    };
    let mark = if !active {
        Seq::empty()
    } else {
        match bar.style {
            TabStyle::Underline => seq![
                DrawCmd::FillRect { x: tx as i32, y: (y + h - 2) as i32, w: tw as u32, h: 2, color: fill },
            ],
            TabStyle::Filled => seq![
                DrawCmd::FillRoundedRect {
                    x: (tx + 2) as i32,
                    y: (y + 2) as i32,
                    w: sat_sub(tw, 4) as u32,
                    h: (h - 4) as u32,
                    radius: theme.border_radius_sm,
                    color: fill,
                },
            ],
            TabStyle::Pill => seq![
                DrawCmd::FillRoundedRect {
                    x: (tx + 2) as i32,
                    y: (y + 2) as i32,
                    w: sat_sub(tw, 4) as u32,
                    h: (h - 4) as u32,
                    radius: (((h - 4) as u32) as u16) / 2,
                    color: fill,
                },
            ],
        }
    };
    let ring = if active && bar.focused && !bar.disabled {
        seq![focus_ring_op(theme_focus_style(theme), tx as i32, y, tw as u32, h)]
    } else {
        Seq::empty()
    };
    let label = seq![
        DrawCmd::Text {
            text: bar.tabs@[i]@,
            x: (tx + center_spec(tw as u32, widths[i])) as i32,
            y: (y + center_spec(h, text_h)) as i32,
            font_size: theme.font_size_md,
            color: tab_label_color(bar, theme, i),
        },
    ];
    hover + mark + ring + label
}

/// The operations of the first `k` tabs.
pub open spec fn tabs_ops_upto(
    bar: TabBar,
    theme: Theme,
    hover_bg: Color,
    x: i32,
    y: i32,
    w: u32,
    h: u32,
    text_h: u32,
    widths: Seq<u32>,
    k: nat,
) -> Seq<DrawCmd>
    decreases k,
{
    if k == 0 {
        Seq::empty()
    } else {
        tabs_ops_upto(bar, theme, hover_bg, x, y, w, h, text_h, widths, (k - 1) as nat) + tab_ops(
            bar,
            theme,
            hover_bg,
            x,
            y,
            w,
            h,
            text_h,
            widths,
            k - 1,
        )
    }
}

/// Everything a tab bar draws: nothing without tabs; otherwise each tab in
/// order, then (underline style) a one-pixel line along the bottom edge.
pub open spec fn tab_bar_ops(
    bar: TabBar,
    theme: Theme,
    hover_bg: Color,
    x: i32,
    y: i32,
    w: u32,
    h: u32,
    text_h: u32,
    widths: Seq<u32>,
) -> Seq<DrawCmd> {
    let n = bar.tabs@.len();
    if n == 0 {
        Seq::empty()
    } else {
        tabs_ops_upto(bar, theme, hover_bg, x, y, w, h, text_h, widths, n) + if bar.style
            == TabStyle::Underline {
            seq![
                DrawCmd::Line {
                    x1: x,
                    y1: (y + h - 1) as i32,
                    x2: (x + w) as i32,
                    y2: (y + h - 1) as i32,
                    width: 1,
                    color: theme.border_subtle,
                },
            ]
        } else {
            Seq::empty()
        }
    }
}

/// Whether drawing the bar at `(x, y, w, h)` stays inside `i32` and `u32`
/// arithmetic, and (filled and pill styles) the bar is at least 4 pixels
/// tall when a tab is active.
pub open spec fn tab_draw_fits(
    bar: TabBar,
    x: i32,
    y: i32,
    w: u32,
    h: u32,
    text_h: u32,
    widths: Seq<u32>,
) -> bool {
    let n = bar.tabs@.len() as int;
    &&& n <= u32::MAX
    &&& widths.len() == n
    &&& w < i32::MAX && h < i32::MAX
    &&& x + w + 2 <= i32::MAX
    &&& y + h + 2 <= i32::MAX
    &&& y + h - 2 >= i32::MIN
    &&& text_h <= i32::MAX
    &&& forall|i: int| 0 <= i < n ==> #[trigger] widths[i] <= i32::MAX
    &&& (bar.active < n && bar.style != TabStyle::Underline) ==> h >= 4
}

impl TabBar {
    /// Create an enabled underline tab bar with the first tab active.
    pub fn new(tabs: Vec<String>) -> (r: Self)
        ensures
            r.tabs@ == tabs@,
            r.active == 0,
            r.style == TabStyle::Underline,
            !r.disabled,
            !r.focused,
            r.hovered.is_none(),
            !r.pressed,
    {
        TabBar {
            tabs,
            active: 0,
            style: TabStyle::Underline,
            disabled: false,
            focused: false,
            hovered: None,
            pressed: false,
        }
    }

    /// Interaction state of tab `index`: hovered (and pressed) only when the
    /// pointer is over it; disabled with the bar.
    pub fn tab_state(&self, index: usize) -> (r: WidgetState)
        ensures
            r == from_flags_spec(
                self.hovered == Some(index),
                self.hovered == Some(index) && self.pressed,
                self.disabled,
            ),
    {
        let hover = match self.hovered {
            Some(h) => h == index,
            None => false,
        };
        WidgetState::from_flags(hover, hover && self.pressed, self.disabled)
    }

    /// The tab under horizontal offset `dx` in a bar `w` pixels wide, using
    /// the same split of the width as drawing does.
    pub fn tab_at(&self, dx: i32, w: u32) -> (r: Option<usize>)
        requires
            self.tabs@.len() <= u32::MAX,
        ensures
            match r {
                None => self.tabs@.len() == 0 || dx < 0 || dx >= as_i32(w),
                Some(i) => {
                    &&& i < self.tabs@.len()
                    &&& tab_start(w as int, self.tabs@.len() as int, i as int) <= dx
                    &&& dx < tab_start(w as int, self.tabs@.len() as int, i as int) + tab_width(
                        w as int,
                        self.tabs@.len() as int,
                        i as int,
                    )
                },
            },
            (self.tabs@.len() > 0 && 0 <= dx < as_i32(w)) ==> r.is_some(),
    {
        if self.tabs.len() == 0 || dx < 0 || dx >= crate::layout::to_i32(w) {
            return None;
        }
        let n = self.tabs.len() as u32;
        let tab_w = w / n;
        let remainder = w % n;
        proof {
            assert(w == n * tab_w + remainder) by (nonlinear_arith)
                requires
                    n > 0,
                    tab_w == w / n,
                    remainder == w % n,
            ;
            assert(remainder * (tab_w + 1) <= w) by (nonlinear_arith)
                requires
                    w == n * tab_w + remainder,
                    remainder < n,
            ;
        }
        let wide = remainder * (tab_w + 1);
        let dxu = dx as u32;
        assert(dxu < w);
        let ghost wi = w as int;
        let ghost ni = n as int;
        if dxu < wide {
            let i = dxu / (tab_w + 1);
            proof {
                assert(i * (tab_w + 1) <= dxu && dxu < i * (tab_w + 1) + tab_w + 1 && i < remainder)
                    by (nonlinear_arith)
                    requires
                        i == dxu as int / (tab_w + 1),
                        dxu < wide,
                        wide == remainder * (tab_w + 1),
                        tab_w + 1 > 0,
                ;
                assert(tab_start(wi, ni, i as int) == i * tab_w + i);
                assert(i * tab_w + i == i * (tab_w + 1)) by (nonlinear_arith);
            }
            if (i as usize) < self.tabs.len() {
                Some(i as usize)
            } else {
                None
            }
        } else {
            assert(tab_w > 0) by (nonlinear_arith)
                requires
                    w == n * tab_w + remainder,
                    wide == remainder * (tab_w + 1),
                    wide <= dxu,
                    dxu < w,
                    tab_w >= 0,
            {
                if tab_w == 0 {
                    assert(w == remainder);
                    assert(wide == remainder);
                }
            }
            let k = (dxu - wide) / tab_w;
            let i = remainder + k;
            proof {
                assert(k * tab_w <= dxu - wide && dxu - wide < k * tab_w + tab_w) by (nonlinear_arith)
                    requires
                        k == (dxu - wide) as int / (tab_w as int),
                        tab_w > 0,
                        dxu >= wide,
                ;
                assert(k < n - remainder) by (nonlinear_arith)
                    requires
                        k * tab_w <= dxu - wide,
                        dxu < w,
                        w == n * tab_w + remainder,
                        wide == remainder * (tab_w + 1),
                        tab_w > 0,
                        remainder < n,
                {
                    if k >= n - remainder {
                        assert(k * tab_w >= (n - remainder) * tab_w);
                        assert(dxu - wide >= (n - remainder) * tab_w);
                        assert(w - wide == (n - remainder) * tab_w);
                    }
                }
                assert(tab_start(wi, ni, i as int) == i * tab_w + remainder);
                assert(i * tab_w + remainder == wide + k * tab_w) by (nonlinear_arith)
                    requires
                        i == remainder + k,
                        wide == remainder * (tab_w + 1),
                ;
            }
            if (i as usize) < self.tabs.len() {
                Some(i as usize)
            } else {
                None
            }
        }
    }

    /// Horizontal offset and width of tab `i` in a bar `w` pixels wide: the
    /// split of the width that drawing and hit testing share.
    pub fn tab_rect(&self, i: usize, w: u32) -> (r: (u32, u32))
        requires
            i < self.tabs@.len(),
            self.tabs@.len() <= u32::MAX,
        ensures
            r.0 == tab_start(w as int, self.tabs@.len() as int, i as int),
            r.1 == tab_width(w as int, self.tabs@.len() as int, i as int),
            r.0 + r.1 <= w,
    {
        let n = self.tabs.len() as u32;
        let q = w / n;
        let rem = w % n;
        let iu = i as u32;
        proof {
            lemma_tabs_tile(w as nat, n as nat, iu as nat);
            assert(w == n * q + rem) by (nonlinear_arith)
                requires
                    n > 0,
                    q == w / n,
                    rem == w % n,
            ;
            assert((iu + 1) * q <= n * q) by (nonlinear_arith)
                requires
                    iu + 1 <= n,
                    q >= 0,
            ;
            assert(iu * q + q == (iu + 1) * q) by (nonlinear_arith);
        }
        let extra: u32 = if iu < rem {
            iu
        } else {
            rem
        };
        let width: u32 = if iu < rem {
            q + 1
        } else {
            q
        };
        (iu * q + extra, width)
    }

    /// What drawing the bar at `(x, y, w, h)` asks the renderer to draw,
    /// given the label text height, each label's width and the fill used
    /// under a hovered or pressed inactive tab.
    pub fn draw(
        &self,
        theme: &Theme,
        hover_bg: Color,
        x: i32,
        y: i32,
        w: u32,
        h: u32,
        text_h: u32,
        label_widths: &Vec<u32>,
    ) -> (r: Vec<DrawOp>)
        requires
            tab_draw_fits(*self, x, y, w, h, text_h, label_widths@),
        ensures
            cmds(r@) == tab_bar_ops(*self, *theme, hover_bg, x, y, w, h, text_h, label_widths@),
    {
        let mut out: Vec<DrawOp> = Vec::new();
        let n = self.tabs.len();
        if n == 0 {
            return out;
        }
        assert(center_in_range(h, text_h));
        let ty = center(h, text_h);
        assert(0 <= ty <= h);
        let mut i: usize = 0;
        while i < n
            invariant
                n == self.tabs@.len(),
                0 <= i <= n,
                tab_draw_fits(*self, x, y, w, h, text_h, label_widths@),
                ty == center_spec(h, text_h),
                0 <= ty <= h,
                cmds(out@) == tabs_ops_upto(*self, *theme, hover_bg, x, y, w, h, text_h, label_widths@, i as nat),
            decreases n - i,
        {
            let ghost ni = n as int;
            let (off, tw) = self.tab_rect(i, w);
            proof {
                lemma_tabs_tile(w as nat, n as nat, i as nat);
                lemma_tab_start_bound(w as nat, n as nat, (i + 1) as nat);
            }
            let tx: i32 = x + off as i32;
            let active = i == self.active;
            let state = self.tab_state(i);
            let fill = WidgetStateColors::accent_bg(theme, state);
            let mut ops: Vec<DrawOp> = Vec::new();
            let hot = match state {
                WidgetState::Hover | WidgetState::Pressed => true,
                _ => false,
            };
            let inner_w: u32 = if tw >= 4 {
                tw - 4
            } else {
                0
            };
            if !active && hot {
                let inner_h: u32 = if h >= 4 {
                    h - 4
                } else {
                    0
                };
                ops.push(
                    DrawOp::FillRoundedRect {
                        x: tx + 2,
                        y: y + 2,
                        w: inner_w,
                        h: inner_h,
                        radius: theme.border_radius_sm,
                        color: hover_bg,
                    },
                );
            }
            if active {
                match self.style {
                    TabStyle::Underline => {
                        ops.push(
                            DrawOp::FillRect { x: tx, y: y + h as i32 - 2, w: tw, h: 2, color: fill },
                        );
                    },
                    TabStyle::Filled => {
                        ops.push(
                            DrawOp::FillRoundedRect {
                                x: tx + 2,
                                y: y + 2,
                                w: inner_w,
                                h: h - 4,
                                radius: theme.border_radius_sm,
                                color: fill,
                            },
                        );
                    },
                    TabStyle::Pill => {
                        ops.push(
                            DrawOp::FillRoundedRect {
                                x: tx + 2,
                                y: y + 2,
                                w: inner_w,
                                h: h - 4,
                                radius: (#[verifier::truncate] ((h - 4) as u16)) / 2,
                                color: fill,
                            },
                        );
                    },
                }
            }
            if active && self.focused && !self.disabled {
                let style = FocusStyle::from_theme(theme);
                assert(style == theme_focus_style(*theme));
                ops.push(style.draw(tx, y, tw, h));
            }
            let label_color = if active {
                match self.style {
                    TabStyle::Underline => theme.accent,
                    _ => theme.text_on_accent,
                }
            } else if self.disabled {
                theme.text_disabled
            } else {
                theme.text_secondary
            };
            assert(label_widths@[i as int] <= i32::MAX);
            assert(center_in_range(tw, label_widths@[i as int]));
            let lx = center(tw, label_widths[i]);
            assert(0 <= lx <= tw);
            ops.push(
                DrawOp::Text {
                    text: self.tabs[i].clone(),
                    x: tx + lx,
                    y: y + ty,
                    font_size: theme.font_size_md,
                    color: label_color,
                },
            );
            assert(cmds(ops@) =~= tab_ops(*self, *theme, hover_bg, x, y, w, h, text_h, label_widths@, i as int));
            proof {
                lemma_cmds_add(out@, ops@);
            }
            out.append(&mut ops);
            i = i + 1;
        }
        if self.style == TabStyle::Underline {
            let line = DrawOp::Line {
                x1: x,
                y1: y + h as i32 - 1,
                x2: x + w as i32,
                y2: y + h as i32 - 1,
                width: 1,
                color: theme.border_subtle,
            };
            let ghost before = out@;
            proof {
                lemma_cmds_add(before, seq![line]);
            }
            out.push(line);
            assert(out@ =~= before + seq![line]);
        }
        out
    }

    /// Make tab `index` active, if enabled and in range.
    pub fn select(&mut self, index: usize)
        ensures
            final(self).tabs@ == old(self).tabs@,
            final(self).disabled == old(self).disabled,
            final(self).style == old(self).style,
            final(self).focused == old(self).focused,
            final(self).hovered == old(self).hovered,
            final(self).pressed == old(self).pressed,
            final(self).active == if !old(self).disabled && index < old(self).tabs@.len() {
                index
            } else {
                old(self).active
            },
    {
        if !self.disabled && index < self.tabs.len() {
            self.active = index;
        }
    }
}

/// Tabs tile the bar: each tab starts where the previous one ends, and the
/// last one ends at the bar's width.
pub proof fn lemma_tabs_tile(w: nat, n: nat, i: nat)
    requires
        n > 0,
        i < n,
    ensures
        tab_start(w as int, n as int, i as int) + tab_width(w as int, n as int, i as int)
            == tab_start(w as int, n as int, i + 1int),
        tab_start(w as int, n as int, n as int) == w,
        tab_start(w as int, n as int, 0) == 0,
{
    let q = w as int / n as int;
    let r = w as int % n as int;
    assert(w == n * q + r) by (nonlinear_arith)
        requires
            n > 0,
            q == w as int / n as int,
            r == w as int % n as int,
    ;
    assert((i + 1) * q == i * q + q) by (nonlinear_arith);
    assert(n * q == q * n) by (nonlinear_arith);
}

/// A tab never starts past the bar's width.
proof fn lemma_tab_start_bound(w: nat, n: nat, i: nat)
    requires
        n > 0,
        i <= n,
    ensures
        0 <= tab_start(w as int, n as int, i as int) <= w,
{
    let q = w as int / n as int;
    let r = w as int % n as int;
    assert(w == n * q + r) by (nonlinear_arith)
        requires
            n > 0,
            q == w as int / n as int,
            r == w as int % n as int,
    ;
    assert(i * q <= n * q) by (nonlinear_arith)
        requires
            i <= n,
            q >= 0,
    ;
    assert(i * q >= 0) by (nonlinear_arith)
        requires
            q >= 0,
    ;
}

} // verus!
