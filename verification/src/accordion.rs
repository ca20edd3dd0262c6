//! Accordion widget: collapsible sections with single or multi-expand modes.
use crate::cyclic::{
    cyc_back, cyc_fwd, lemma_back_covers, lemma_back_next, lemma_fwd_covers, lemma_fwd_full,
    lemma_fwd_next, lemma_least_in_is, least_in,
};
use crate::draw::{cmds, lemma_cmds_add, lemma_cmds_push, DrawCmd, DrawOp};
use crate::layout::{center, center_in_range, center_spec};
use crate::text::push_char;
use crate::theme::Theme;
use vstd::prelude::*;

verus! {

/// Controls how many sections can be expanded simultaneously.
#[derive(Debug, Clone, Copy, PartialEq, Eq, Structural)]
pub enum AccordionMode {
    /// Only one section can be open at a time. Expanding a section collapses
    /// all others.
    SingleExpand,
    /// Multiple sections can be open simultaneously.
    MultiExpand,
}

/// A single collapsible section within an accordion.
#[derive(Debug, Clone)]
pub struct Section {
    /// Header text displayed on the section bar.
    pub header: String,
    /// Content lines displayed when the section is expanded.
    pub content_lines: Vec<String>,
    /// Whether this section is currently expanded.
    pub expanded: bool,
    /// Whether this section is disabled (cannot be toggled).
    pub disabled: bool,
}

impl Section {
    /// Create a new section with the given header and content lines.
    pub fn new(header: &str, content_lines: Vec<String>) -> (r: Self)
        ensures
            r.header@ == header@,
            r.content_lines == content_lines,
            !r.expanded,
            !r.disabled,
    {
        Section { header: header.to_string(), content_lines, expanded: false, disabled: false }
    }
}

/// An accordion widget with collapsible sections.
///
/// Each section has a header bar and expandable content lines. The
/// accordion supports single-expand mode (only one open at a time) or
/// multi-expand mode (any number can be open).
pub struct Accordion {
    /// The sections in this accordion.
    pub sections: Vec<Section>,
    /// Expansion mode.
    pub mode: AccordionMode,
    /// Index of the currently focused section header.
    pub focused_index: usize,
    /// Height of each section header bar in pixels.
    pub header_height: u16,
    /// Height of each content line in pixels.
    pub line_height: u16,
}

/// `b` is `a` with at most the `expanded` flags changed.
pub open spec fn only_expanded_changed(a: Seq<Section>, b: Seq<Section>) -> bool {
    &&& a.len() == b.len()
    &&& forall|i: int|
        0 <= i < a.len() ==> {
            &&& (#[trigger] b[i]).header == a[i].header
            &&& b[i].content_lines == a[i].content_lines
            &&& b[i].disabled == a[i].disabled
        }
}

/// Whether section `i` is expanded after toggling section `index`.
pub open spec fn expanded_after_toggle(
    s: Seq<Section>,
    mode: AccordionMode,
    index: int,
    i: int,
) -> bool {
    if index >= s.len() || s[index].disabled {
        s[i].expanded
    } else {
        let new_state = !s[index].expanded;
        if i == index {
            new_state
        } else if new_state && mode == AccordionMode::SingleExpand {
            false
        } else {
            s[i].expanded
        }
    }
}

/// Whether section `i` is expanded after expanding section `index`.
pub open spec fn expanded_after_expand(
    s: Seq<Section>,
    mode: AccordionMode,
    index: int,
    i: int,
) -> bool {
    if index >= s.len() || s[index].disabled {
        s[i].expanded
    } else if i == index {
        true
    } else if mode == AccordionMode::SingleExpand {
        false
    } else {
        s[i].expanded
    }
}

/// The last section that is not disabled, if any.
pub open spec fn last_enabled(s: Seq<Section>) -> Option<int> {
    if exists|i: int| 0 <= i < s.len() && !(#[trigger] s[i]).disabled {
        Some(
            choose|i: int|
                0 <= i < s.len() && !(#[trigger] s[i]).disabled && forall|j: int|
                    i < j < s.len() ==> (#[trigger] s[j]).disabled,
        )
    } else {
        None
    }
}

/// Whether section `i` is expanded after `expand_all`.
pub open spec fn expanded_after_expand_all(s: Seq<Section>, mode: AccordionMode, i: int) -> bool {
    if mode == AccordionMode::SingleExpand {
        last_enabled(s) == Some(i) && !s[i].disabled
    } else if !s[i].disabled {
        true
    } else {
        s[i].expanded
    }
}

/// The forward walk from `start` stops after `k` steps.
pub open spec fn down_stop(s: Seq<Section>, start: int) -> spec_fn(int) -> bool {
    |k: int| !s[cyc_fwd(start, k, s.len() as int)].disabled || cyc_fwd(start, k, s.len() as int) == start
}

/// The backward walk from `start` stops after `k` steps.
pub open spec fn up_stop(s: Seq<Section>, start: int) -> spec_fn(int) -> bool {
    |k: int| !s[cyc_back(start, k, s.len() as int)].disabled || cyc_back(start, k, s.len() as int) == start
}

/// Where focus stops when walking forward from `start`: the first section
/// that is not disabled, or `start` itself once the walk comes back to it.
pub open spec fn nav_down_target(s: Seq<Section>, start: int) -> int {
    let n = s.len() as int;
    match least_in(down_stop(s, start), 1, n) {
        Some(k) => cyc_fwd(start, k, n),
        None => start,
    }
}

/// Where focus stops when walking backward from `start`.
pub open spec fn nav_up_target(s: Seq<Section>, start: int) -> int {
    let n = s.len() as int;
    match least_in(up_stop(s, start), 1, n) {
        Some(k) => cyc_back(start, k, n),
        None => start,
    }
}

/// Some section is not disabled.
pub open spec fn has_enabled(s: Seq<Section>) -> bool {
    exists|i: int| 0 <= i < s.len() && !(#[trigger] s[i]).disabled
}

/// Height of one section: the header, plus its lines when expanded.
pub open spec fn section_height_spec(header_height: u16, line_height: u16, section: Section) -> int {
    header_height + if section.expanded {
        (section.content_lines@.len() as u32) * line_height
    } else {
        0
    }
}

/// Total height of the sections `0..n`.
pub open spec fn total_height_spec(header_height: u16, line_height: u16, s: Seq<Section>, n: int) -> int
    decreases n,
{
    if n <= 0 {
        0
    } else {
        total_height_spec(header_height, line_height, s, n - 1) + section_height_spec(
            header_height,
            line_height,
            s[n - 1],
        )
    }
}

/// Left edge of the header and content text, past the padding and the
/// expand indicator.
pub const TEXT_OFFSET_X: i32 = 24;

/// Left edge of the expand indicator.
pub const INDICATOR_OFFSET_X: i32 = 8;

/// Top edge of section `i` of an accordion whose top edge is `y`.
pub open spec fn section_top(a: Accordion, y: i32, i: int) -> int {
    y + total_height_spec(a.header_height, a.line_height, a.sections@, i)
}

/// The first `k` content lines of section `i`.
pub open spec fn content_ops(a: Accordion, theme: Theme, x: i32, y: i32, text_h: u32, i: int, k: nat) -> Seq<DrawCmd>
    decreases k,
{
    if k == 0 {
        Seq::empty()
    } else {
        let top = section_top(a, y, i) + a.header_height + (k - 1) * a.line_height;
        content_ops(a, theme, x, y, text_h, i, (k - 1) as nat) + seq![
            DrawCmd::Text {
                text: a.sections@[i].content_lines@[k - 1]@,
                x: (x + TEXT_OFFSET_X) as i32,
                y: (top + center_spec(a.line_height as u32, text_h)) as i32,
                font_size: theme.font_size_md,
                color: theme.text_secondary,
            },
        ]
    }
}

/// What section `i` draws: its header fill (accented when focused and
/// enabled), the line above it (but for the first), the `+`/`-`
/// indicator and the header text, then its lines when expanded.
pub open spec fn section_ops(a: Accordion, theme: Theme, x: i32, y: i32, w: u32, text_h: u32, i: int) -> Seq<DrawCmd> {
    let sec = a.sections@[i];
    let sy = section_top(a, y, i);
    let ty = sy + center_spec(a.header_height as u32, text_h);
    let color = if sec.disabled {
        theme.text_disabled
    } else {
        theme.text_primary
    };
    let line = if i > 0 {
        seq![
            DrawCmd::Line {
                x1: x,
                y1: sy as i32,
                x2: (x + w) as i32,
                y2: sy as i32,
                width: 1,
                color: theme.border_subtle,
            },
        ]
    } else {
        Seq::empty()
    };
    seq![
        DrawCmd::FillRect {
            x,
            y: sy as i32,
            w,
            h: a.header_height as u32,
            color: if i == a.focused_index && !sec.disabled {
                theme.accent_subtle
            } else {
                theme.surface
            },
        },
    ] + line + seq![
        DrawCmd::Text {
            text: if sec.expanded {
                seq!['-']
            } else {
                seq!['+']
            },
            x: (x + INDICATOR_OFFSET_X) as i32,
            y: ty as i32,
            font_size: theme.font_size_md,
            color,
        },
        DrawCmd::Text {
            text: sec.header@,
            x: (x + TEXT_OFFSET_X) as i32,
            y: ty as i32,
            font_size: theme.font_size_md,
            color,
        },
    ] + if sec.expanded {
        content_ops(a, theme, x, y, text_h, i, sec.content_lines@.len())
    } else {
        Seq::empty()
    }
}

/// The operations of the first `k` sections.
pub open spec fn sections_ops(a: Accordion, theme: Theme, x: i32, y: i32, w: u32, text_h: u32, k: nat) -> Seq<
    DrawCmd,
>
    decreases k,
{
    if k == 0 {
        Seq::empty()
    } else {
        sections_ops(a, theme, x, y, w, text_h, (k - 1) as nat) + section_ops(a, theme, x, y, w, text_h, k - 1)
    }
}

/// Everything an accordion draws at `(x, y)` with width `w`, given the
/// text height: each section in order, then a line under the last.
pub open spec fn accordion_ops(a: Accordion, theme: Theme, x: i32, y: i32, w: u32, text_h: u32) -> Seq<DrawCmd> {
    let n = a.sections@.len();
    let bottom = section_top(a, y, n as int);
    sections_ops(a, theme, x, y, w, text_h, n) + if n > 0 {
        seq![
            DrawCmd::Line {
                x1: x,
                y1: bottom as i32,
                x2: (x + w) as i32,
                y2: bottom as i32,
                width: 1,
                color: theme.border_subtle,
            },
        ]
    } else {
        Seq::empty()
    }
}

/// Whether drawing the accordion at `(x, y)` with width `w` stays inside
/// `i32` arithmetic.
pub open spec fn accordion_draw_fits(a: Accordion, x: i32, y: i32, w: u32, text_h: u32) -> bool {
    &&& w <= i32::MAX
    &&& x + w <= i32::MAX
    &&& x + TEXT_OFFSET_X <= i32::MAX
    &&& text_h <= i32::MAX
    &&& section_top(a, y, a.sections@.len() as int) <= i32::MAX
    &&& forall|i: int|
        0 <= i < a.sections@.len() ==> (#[trigger] a.sections@[i]).content_lines@.len() <= u32::MAX
}

/// Line `j` of a section with `n` lines of height `lh` ends inside it.
proof fn lemma_line_fits(n: int, lh: int, j: int)
    requires
        0 <= j < n,
        lh >= 0,
    ensures
        j * lh + lh <= n * lh,
        0 <= j * lh,
        j * lh + lh == (j + 1) * lh,
{
    assert(j * lh + lh == (j + 1) * lh) by (nonlinear_arith);
    assert(j * lh + lh <= n * lh) by (nonlinear_arith)
        requires
            0 <= j < n,
            lh >= 0,
    ;
    assert(0 <= j * lh) by (nonlinear_arith)
        requires
            0 <= j,
            lh >= 0,
    ;
}

impl Accordion {
    /// Create a new accordion with the given expansion mode.
    pub fn new(mode: AccordionMode) -> (r: Self)
        ensures
            r.sections@.len() == 0,
            r.mode == mode,
            r.focused_index == 0,
            r.header_height == 24,
            r.line_height == 16,
    {
        Accordion { sections: Vec::new(), mode, focused_index: 0, header_height: 24, line_height: 16 }
    }

    /// Add a section with the given header and content lines.
    pub fn add_section(&mut self, header: &str, content_lines: Vec<String>)
        ensures
            final(self).sections@.len() == old(self).sections@.len() + 1,
            forall|i: int|
                0 <= i < old(self).sections@.len() ==> #[trigger] final(self).sections@[i] == old(
                    self,
                ).sections@[i],
            ({
                let s = final(self).sections@.last();
                &&& s.header@ == header@
                &&& s.content_lines == content_lines
                &&& !s.expanded
                &&& !s.disabled
            }),
            final(self).mode == old(self).mode,
            final(self).focused_index == old(self).focused_index,
            final(self).header_height == old(self).header_height,
            final(self).line_height == old(self).line_height,
    {
        self.sections.push(Section::new(header, content_lines));
    }

    /// Set every `expanded` flag to `false`.
    fn collapse_every(&mut self)
        ensures
            only_expanded_changed(old(self).sections@, final(self).sections@),
            forall|i: int| 0 <= i < final(self).sections@.len() ==> !(#[trigger] final(self).sections@[i]).expanded,
            final(self).mode == old(self).mode,
            final(self).focused_index == old(self).focused_index,
            final(self).header_height == old(self).header_height,
            final(self).line_height == old(self).line_height,
    {
        let ghost s0 = self.sections@;
        let mut i: usize = 0;
        while i < self.sections.len()
            invariant
                i <= self.sections@.len(),
                only_expanded_changed(s0, self.sections@),
                forall|j: int| 0 <= j < i ==> !(#[trigger] self.sections@[j]).expanded,
                self.mode == old(self).mode,
                self.focused_index == old(self).focused_index,
                self.header_height == old(self).header_height,
                self.line_height == old(self).line_height,
            decreases self.sections@.len() - i,
        {
            self.sections[i].expanded = false;
            i = i + 1;
        }
    }

    /// Toggle the expanded state of a section at the given index.
    ///
    /// In `SingleExpand` mode, expanding a section collapses all others.
    /// Disabled sections are not toggled.
    pub fn toggle(&mut self, index: usize)
        ensures
            only_expanded_changed(old(self).sections@, final(self).sections@),
            forall|i: int|
                0 <= i < final(self).sections@.len() ==> (#[trigger] final(self).sections@[i]).expanded
                    == expanded_after_toggle(old(self).sections@, old(self).mode, index as int, i),
            final(self).mode == old(self).mode,
            final(self).focused_index == old(self).focused_index,
            final(self).header_height == old(self).header_height,
            final(self).line_height == old(self).line_height,
    {
        if index >= self.sections.len() || self.sections[index].disabled {
            return;
        }
        let new_state = !self.sections[index].expanded;
        if new_state && self.mode == AccordionMode::SingleExpand {
            self.collapse_every();
        }
        self.sections[index].expanded = new_state;
    }

    /// Expand the section at the given index.
    ///
    /// In `SingleExpand` mode, all other sections are collapsed first.
    /// Disabled sections are not modified.
    pub fn expand(&mut self, index: usize)
        ensures
            only_expanded_changed(old(self).sections@, final(self).sections@),
            forall|i: int|
                0 <= i < final(self).sections@.len() ==> (#[trigger] final(self).sections@[i]).expanded
                    == expanded_after_expand(old(self).sections@, old(self).mode, index as int, i),
            final(self).mode == old(self).mode,
            final(self).focused_index == old(self).focused_index,
            final(self).header_height == old(self).header_height,
            final(self).line_height == old(self).line_height,
    {
        if index >= self.sections.len() || self.sections[index].disabled {
            return;
        }
        if self.mode == AccordionMode::SingleExpand {
            self.collapse_every();
        }
        self.sections[index].expanded = true;
    }

    /// Collapse the section at the given index.
    ///
    /// Disabled sections are not modified.
    pub fn collapse(&mut self, index: usize)
        ensures
            only_expanded_changed(old(self).sections@, final(self).sections@),
            forall|i: int|
                0 <= i < final(self).sections@.len() ==> (#[trigger] final(self).sections@[i]).expanded
                    == if i == index && !old(self).sections@[i].disabled {
                    false
                } else {
                    old(self).sections@[i].expanded
                },
            final(self).mode == old(self).mode,
            final(self).focused_index == old(self).focused_index,
            final(self).header_height == old(self).header_height,
            final(self).line_height == old(self).line_height,
    {
        if index >= self.sections.len() || self.sections[index].disabled {
            return;
        }
        self.sections[index].expanded = false;
    }

    /// Expand all non-disabled sections.
    ///
    /// In `SingleExpand` mode only the last non-disabled section ends up
    /// expanded since each expansion collapses the others.
    pub fn expand_all(&mut self)
        ensures
            only_expanded_changed(old(self).sections@, final(self).sections@),
            forall|i: int|
                0 <= i < final(self).sections@.len() ==> (#[trigger] final(self).sections@[i]).expanded
                    == expanded_after_expand_all(old(self).sections@, old(self).mode, i),
            final(self).mode == old(self).mode,
            final(self).focused_index == old(self).focused_index,
            final(self).header_height == old(self).header_height,
            final(self).line_height == old(self).line_height,
    {
        let ghost s0 = self.sections@;
        let n = self.sections.len();
        if self.mode == AccordionMode::SingleExpand {
            // The last non-disabled section, searching from the end.
            let mut last: Option<usize> = None;
            let mut j: usize = n;
            while j > 0 && last.is_none()
                invariant
                    j <= n,
                    n == s0.len(),
                    self.sections@ == s0,
                    forall|k: int| j <= k < n && (last is None || k > j) ==> (#[trigger] s0[k]).disabled,
                    last is None || last == Some(j),
                    last matches Some(l) ==> l < n && !s0[l as int].disabled,
                decreases j + (if last is None { 1int } else { 0int }),
            {
                if !self.sections[j - 1].disabled {
                    last = Some(j - 1);
                    j = j - 1;
                } else {
                    j = j - 1;
                }
            }
            proof {
                match last {
                    Some(l) => {
                        let c = choose|i: int|
                            0 <= i < s0.len() && !(#[trigger] s0[i]).disabled && forall|k: int|
                                i < k < s0.len() ==> (#[trigger] s0[k]).disabled;
                        assert(has_enabled(s0) || !s0[l as int].disabled);
                        assert(0 <= l < s0.len() && !s0[l as int].disabled);
                        if c < l {
                            assert(s0[l as int].disabled);
                        } else if l < c {
                            assert(s0[c].disabled);
                        }
                        assert(last_enabled(s0) == Some(l as int));
                    },
                    None => {
                        assert(last_enabled(s0) is None);
                    },
                }
            }
            let mut i: usize = 0;
            while i < n
                invariant
                    i <= n,
                    n == s0.len(),
                    only_expanded_changed(s0, self.sections@),
                    last_enabled(s0) == (match last {
                        Some(l) => Some(l as int),
                        None => None::<int>,
                    }),
                    forall|k: int|
                        0 <= k < i ==> (#[trigger] self.sections@[k]).expanded == (last_enabled(s0)
                            == Some(k) && !s0[k].disabled),
                    forall|k: int| i <= k < n ==> #[trigger] self.sections@[k] == s0[k],
                    self.mode == old(self).mode,
                    self.mode == AccordionMode::SingleExpand,
                    self.focused_index == old(self).focused_index,
                    self.header_height == old(self).header_height,
                    self.line_height == old(self).line_height,
                decreases n - i,
            {
                let is_last = match last {
                    Some(l) => l == i,
                    None => false,
                };
                let d = self.sections[i].disabled;
                self.sections[i].expanded = is_last && !d;
                i = i + 1;
            }
        } else {
            let mut i: usize = 0;
            while i < n
                invariant
                    i <= n,
                    n == s0.len(),
                    only_expanded_changed(s0, self.sections@),
                    forall|k: int|
                        0 <= k < i ==> (#[trigger] self.sections@[k]).expanded == (if !s0[k].disabled {
                            true
                        } else {
                            s0[k].expanded
                        }),
                    forall|k: int| i <= k < n ==> #[trigger] self.sections@[k] == s0[k],
                    self.mode == old(self).mode,
                    self.mode != AccordionMode::SingleExpand,
                    self.focused_index == old(self).focused_index,
                    self.header_height == old(self).header_height,
                    self.line_height == old(self).line_height,
                decreases n - i,
            {
                if !self.sections[i].disabled {
                    self.sections[i].expanded = true;
                }
                i = i + 1;
            }
        }
    }

    /// Collapse all sections (including disabled ones that happen to be open).
    pub fn collapse_all(&mut self)
        ensures
            only_expanded_changed(old(self).sections@, final(self).sections@),
            forall|i: int| 0 <= i < final(self).sections@.len() ==> !(#[trigger] final(self).sections@[i]).expanded,
            final(self).mode == old(self).mode,
            final(self).focused_index == old(self).focused_index,
            final(self).header_height == old(self).header_height,
            final(self).line_height == old(self).line_height,
    {
        self.collapse_every();
    }

    /// Move focus to the previous non-disabled section header.
    ///
    /// When every other section is disabled, focus comes back to where it
    /// started.
    #[verifier::spinoff_prover]
    #[verifier::rlimit(40)]
    pub fn navigate_up(&mut self)
        requires
            old(self).sections@.len() == 0 || old(self).focused_index < old(self).sections@.len() || (
            old(self).focused_index == old(self).sections@.len() && has_enabled(old(self).sections@)),
        ensures
            final(self).sections@ == old(self).sections@,
            final(self).mode == old(self).mode,
            final(self).header_height == old(self).header_height,
            final(self).line_height == old(self).line_height,
            final(self).focused_index == (if old(self).sections@.len() == 0 {
                old(self).focused_index as int
            } else {
                nav_up_target(old(self).sections@, old(self).focused_index as int)
            }),
    {
        if self.sections.len() == 0 {
            return;
        }
        let ghost s = self.sections@;
        let n = self.sections.len();
        let start = self.focused_index;
        let ghost ni = n as int;
        let ghost si = start as int;
        let ghost p = up_stop(s, si);
        let ghost mut k: int = 0;
        proof {
            if si == ni {
                let e = choose|e: int| 0 <= e < s.len() && !(#[trigger] s[e]).disabled;
                lemma_back_covers(si, ni, e);
                let kk = choose|kk: int| 1 <= kk <= ni && #[trigger] cyc_back(si, kk, ni) == e;
                assert(p(kk));
            }
        }
        loop
            invariant_except_break
                self.sections@ == s,
                n == s.len(),
                n > 0,
                si == start,
                ni == n,
                0 <= k < ni,
                self.focused_index == (if k == 0 {
                    si
                } else {
                    cyc_back(si, k, ni)
                }),
                forall|j: int| 1 <= j <= k ==> !#[trigger] p(j),
                si < ni || exists|kk: int| 1 <= kk <= ni && #[trigger] p(kk),
                si <= ni,
                p == up_stop(s, si),
                self.mode == old(self).mode,
                self.header_height == old(self).header_height,
                self.line_height == old(self).line_height,
            ensures
                self.sections@ == s,
                self.mode == old(self).mode,
                self.header_height == old(self).header_height,
                self.line_height == old(self).line_height,
                self.focused_index == nav_up_target(s, si),
            decreases ni - k,
        {
            proof {
                lemma_back_next(si, k, ni);
                if k == 0 {
                    if si < ni {
                        vstd::arithmetic::div_mod::lemma_small_mod(si as nat, ni as nat);
                    } else {
                        vstd::arithmetic::div_mod::lemma_mod_self_0(ni);
                    }
                }
            }
            self.focused_index = if self.focused_index == 0 {
                n - 1
            } else {
                self.focused_index - 1
            };
            proof {
                k = k + 1;
                assert(self.focused_index == cyc_back(si, k, ni));
            }
            if !self.sections[self.focused_index].disabled || self.focused_index == start {
                proof {
                    assert(p(k));
                    lemma_least_in_is(p, 1, ni, k);
                }
                break;
            }
            proof {
                if k == ni {
                    if si < ni {
                        lemma_fwd_full(si, ni);
                    } else {
                        let kk = choose|kk: int| 1 <= kk <= ni && #[trigger] p(kk);
                        assert(!p(kk));
                    }
                }
            }
        }
    }

    /// Move focus to the next non-disabled section header.
    ///
    /// When every other section is disabled, focus comes back to where it
    /// started.
    pub fn navigate_down(&mut self)
        requires
            old(self).sections@.len() == 0 || old(self).focused_index < old(self).sections@.len() || (
            old(self).focused_index < usize::MAX && has_enabled(old(self).sections@)),
        ensures
            final(self).sections@ == old(self).sections@,
            final(self).mode == old(self).mode,
            final(self).header_height == old(self).header_height,
            final(self).line_height == old(self).line_height,
            final(self).focused_index == (if old(self).sections@.len() == 0 {
                old(self).focused_index as int
            } else {
                nav_down_target(old(self).sections@, old(self).focused_index as int)
            }),
    {
        if self.sections.len() == 0 {
            return;
        }
        let ghost s = self.sections@;
        let n = self.sections.len();
        let start = self.focused_index;
        let ghost ni = n as int;
        let ghost si = start as int;
        let ghost p = down_stop(s, si);
        let ghost mut k: int = 0;
        proof {
            if si >= ni {
                let e = choose|e: int| 0 <= e < s.len() && !(#[trigger] s[e]).disabled;
                lemma_fwd_covers(si, ni, e);
                let kk = choose|kk: int| 1 <= kk <= ni && #[trigger] cyc_fwd(si, kk, ni) == e;
                assert(p(kk));
            }
        }
        loop
            invariant_except_break
                self.sections@ == s,
                n == s.len(),
                n > 0,
                si == start,
                ni == n,
                0 <= k < ni,
                self.focused_index == (if k == 0 {
                    si
                } else {
                    cyc_fwd(si, k, ni)
                }),
                forall|j: int| 1 <= j <= k ==> !#[trigger] p(j),
                si < ni || exists|kk: int| 1 <= kk <= ni && #[trigger] p(kk),
                si < ni || si < usize::MAX,
                p == down_stop(s, si),
                self.mode == old(self).mode,
                self.header_height == old(self).header_height,
                self.line_height == old(self).line_height,
            ensures
                self.sections@ == s,
                self.mode == old(self).mode,
                self.header_height == old(self).header_height,
                self.line_height == old(self).line_height,
                self.focused_index == nav_down_target(s, si),
            decreases ni - k,
        {
            proof {
                lemma_fwd_next(si, k, ni);
                if k == 0 && si < ni {
                    vstd::arithmetic::div_mod::lemma_small_mod(si as nat, ni as nat);
                }
            }
            self.focused_index = (self.focused_index + 1) % n;
            proof {
                k = k + 1;
                assert(self.focused_index == cyc_fwd(si, k, ni));
            }
            if !self.sections[self.focused_index].disabled || self.focused_index == start {
                proof {
                    assert(p(k));
                    lemma_least_in_is(p, 1, ni, k);
                }
                break;
            }
            proof {
                if k == ni {
                    if si < ni {
                        lemma_fwd_full(si, ni);
                    } else {
                        let kk = choose|kk: int| 1 <= kk <= ni && #[trigger] p(kk);
                        assert(!p(kk));
                    }
                }
            }
        }
    }

    /// Toggle the currently focused section.
    pub fn activate(&mut self)
        ensures
            only_expanded_changed(old(self).sections@, final(self).sections@),
            forall|i: int|
                0 <= i < final(self).sections@.len() ==> (#[trigger] final(self).sections@[i]).expanded
                    == expanded_after_toggle(
                    old(self).sections@,
                    old(self).mode,
                    old(self).focused_index as int,
                    i,
                ),
            final(self).mode == old(self).mode,
            final(self).focused_index == old(self).focused_index,
            final(self).header_height == old(self).header_height,
            final(self).line_height == old(self).line_height,
    {
        let idx = self.focused_index;
        self.toggle(idx);
    }

    /// Return the index of the currently focused section.
    pub fn focused(&self) -> (r: usize)
        ensures
            r == self.focused_index,
    {
        self.focused_index
    }

    /// Check whether the section at the given index is expanded.
    pub fn is_expanded(&self, index: usize) -> (r: bool)
        ensures
            r == (index < self.sections@.len() && self.sections@[index as int].expanded),
    {
        index < self.sections.len() && self.sections[index].expanded
    }

    /// Return the number of sections.
    pub fn section_count(&self) -> (r: usize)
        ensures
            r == self.sections@.len(),
    {
        self.sections.len()
    }

    /// Compute the total height needed for a section (header + expanded content).
    pub fn section_height(&self, section: &Section) -> (r: u32)
        requires
            section_height_spec(self.header_height, self.line_height, *section) <= u32::MAX,
        ensures
            r == section_height_spec(self.header_height, self.line_height, *section),
    {
        let mut h = self.header_height as u32;
        if section.expanded {
            let lines = section.content_lines.len() as u32;
            assert(lines * (self.line_height as u32) <= u32::MAX);
            h = h + lines * self.line_height as u32;
        }
        h
    }

    /// What drawing the accordion at `(x, y)` with width `w` asks the
    /// renderer to draw, given the text height.
    #[verifier::rlimit(50)]
    pub fn draw(&self, theme: &Theme, x: i32, y: i32, w: u32, text_h: u32) -> (r: Vec<DrawOp>)
        requires
            accordion_draw_fits(*self, x, y, w, text_h),
        ensures
            cmds(r@) == accordion_ops(*self, *theme, x, y, w, text_h),
    {
        let fs = theme.font_size_md;
        let hh = self.header_height as u32;
        let lh = self.line_height as u32;
        assert(center_in_range(hh, text_h));
        let hty = center(hh, text_h);
        assert(0 <= hty <= hh);
        assert(center_in_range(lh, text_h));
        let lty = center(lh, text_h);
        assert(0 <= lty <= lh);
        let n = self.sections.len();
        let mut out: Vec<DrawOp> = Vec::new();
        let mut cur_y: i32 = y;
        let mut i: usize = 0;
        proof {
            lemma_total_height_nonneg(self.header_height, self.line_height, self.sections@, 0);
        }
        while i < n
            invariant
                n == self.sections@.len(),
                i <= n,
                accordion_draw_fits(*self, x, y, w, text_h),
                hh == self.header_height,
                lh == self.line_height,
                fs == theme.font_size_md,
                hty == center_spec(hh, text_h),
                0 <= hty <= hh,
                lty == center_spec(lh, text_h),
                0 <= lty <= lh,
                cur_y == section_top(*self, y, i as int),
                cmds(out@) == sections_ops(*self, *theme, x, y, w, text_h, i as nat),
            decreases n - i,
        {
            proof {
                lemma_total_height_mono(self.header_height, self.line_height, self.sections@, (i + 1) as int, n as int);
                lemma_total_height_nonneg(self.header_height, self.line_height, self.sections@, i as int);
            }
            let section = &self.sections[i];
            let ghost sec = self.sections@[i as int];
            let mut ops: Vec<DrawOp> = Vec::new();
            let header_bg = if i == self.focused_index && !section.disabled {
                theme.accent_subtle
            } else {
                theme.surface
            };
            ops.push(DrawOp::FillRect { x, y: cur_y, w, h: hh, color: header_bg });
            if i > 0 {
                ops.push(
                    DrawOp::Line {
                        x1: x,
                        y1: cur_y,
                        x2: x + w as i32,
                        y2: cur_y,
                        width: 1,
                        color: theme.border_subtle,
                    },
                );
            }
            let color = if section.disabled {
                theme.text_disabled
            } else {
                theme.text_primary
            };
            let mut ind = String::new();
            if section.expanded {
                push_char(&mut ind, '-');
            } else {
                push_char(&mut ind, '+');
            }
            ops.push(
                DrawOp::Text { text: ind, x: x + INDICATOR_OFFSET_X, y: cur_y + hty, font_size: fs, color },
            );
            ops.push(
                DrawOp::Text {
                    text: section.header.clone(),
                    x: x + TEXT_OFFSET_X,
                    y: cur_y + hty,
                    font_size: fs,
                    color,
                },
            );
            let ghost head = cmds(ops@);
            let mut ly: i32 = cur_y + hh as i32;
            if section.expanded {
                let nl = section.content_lines.len();
                let mut j: usize = 0;
                while j < nl
                    invariant
                        n == self.sections@.len(),
                        i < n,
                        sec == self.sections@[i as int],
                        *section == sec,
                        nl == sec.content_lines@.len(),
                        nl <= u32::MAX,
                        j <= nl,
                        sec.expanded,
                        accordion_draw_fits(*self, x, y, w, text_h),
                        lh == self.line_height,
                        hh == self.header_height,
                        fs == theme.font_size_md,
                        lty == center_spec(lh, text_h),
                        0 <= lty <= lh,
                        cur_y == section_top(*self, y, i as int),
                        cur_y + section_height_spec(self.header_height, self.line_height, sec) <= i32::MAX,
                        ly == cur_y + hh + j * lh,
                        cmds(ops@) == head + content_ops(*self, *theme, x, y, text_h, i as int, j as nat),
                    decreases nl - j,
                {
                    proof {
                        lemma_line_fits(nl as int, lh as int, j as int);
                        assert((nl as u32) as int == nl as int);
                    }
                    let op = DrawOp::Text {
                        text: section.content_lines[j].clone(),
                        x: x + TEXT_OFFSET_X,
                        y: ly + lty,
                        font_size: fs,
                        color: theme.text_secondary,
                    };
                    proof {
                        lemma_cmds_push(ops@, op);
                    }
                    ops.push(op);
                    ly = ly + lh as i32;
                    j = j + 1;
                }
            }
            assert(cmds(ops@) =~= section_ops(*self, *theme, x, y, w, text_h, i as int));
            proof {
                lemma_cmds_add(out@, ops@);
            }
            out.append(&mut ops);
            proof {
                if sec.expanded {
                    assert((sec.content_lines@.len() as u32) as int == sec.content_lines@.len());
                }
            }
            cur_y = ly;
            i = i + 1;
        }
        if n > 0 {
            let op = DrawOp::Line {
                x1: x,
                y1: cur_y,
                x2: x + w as i32,
                y2: cur_y,
                width: 1,
                color: theme.border_subtle,
            };
            proof {
                lemma_cmds_push(out@, op);
            }
            out.push(op);
        }
        out
    }

    /// Preferred size: the available width and the total height of all
    /// sections.
    pub fn measure(&self, available_w: u32, _available_h: u32) -> (r: (u32, u32))
        requires
            total_height_spec(
                self.header_height,
                self.line_height,
                self.sections@,
                self.sections@.len() as int,
            ) <= u32::MAX,
        ensures
            r == (
                available_w,
                total_height_spec(
                    self.header_height,
                    self.line_height,
                    self.sections@,
                    self.sections@.len() as int,
                ) as u32,
            ),
    {
        let n = self.sections.len();
        let mut total: u32 = 0;
        let mut i: usize = 0;
        while i < n
            invariant
                n == self.sections@.len(),
                i <= n,
                total == total_height_spec(self.header_height, self.line_height, self.sections@, i as int),
                total_height_spec(self.header_height, self.line_height, self.sections@, n as int)
                    <= u32::MAX,
            decreases n - i,
        {
            proof {
                lemma_total_height_mono(self.header_height, self.line_height, self.sections@, (i + 1) as int, n as int);
            }
            let h = self.section_height(&self.sections[i]);
            total = total + h;
            i = i + 1;
        }
        (available_w, total)
    }
}

/// The height total only grows as more sections are counted.
pub proof fn lemma_total_height_mono(hh: u16, lh: u16, s: Seq<Section>, a: int, b: int)
    requires
        0 <= a <= b,
    ensures
        total_height_spec(hh, lh, s, a) <= total_height_spec(hh, lh, s, b),
        a >= 1 ==> section_height_spec(hh, lh, s[a - 1]) <= total_height_spec(hh, lh, s, b),
    decreases b - a,
{
    if a < b {
        lemma_total_height_mono(hh, lh, s, a, b - 1);
    } else if a >= 1 {
        lemma_total_height_nonneg(hh, lh, s, a - 1);
    }
}

/// Height totals are never negative.
pub proof fn lemma_total_height_nonneg(hh: u16, lh: u16, s: Seq<Section>, n: int)
    ensures
        total_height_spec(hh, lh, s, n) >= 0,
    decreases n,
{
    if n > 0 {
        lemma_total_height_nonneg(hh, lh, s, n - 1);
    }
}

/// In single-expand mode, toggling keeps at most one section expanded.
pub proof fn lemma_single_expand_toggle_keeps_one(s: Seq<Section>, index: int, i: int, j: int)
    requires
        forall|a: int, b: int|
            0 <= a < s.len() && 0 <= b < s.len() && (#[trigger] s[a]).expanded && (#[trigger] s[b]).expanded ==> a == b,
        0 <= i < s.len(),
        0 <= j < s.len(),
        expanded_after_toggle(s, AccordionMode::SingleExpand, index, i),
        expanded_after_toggle(s, AccordionMode::SingleExpand, index, j),
    ensures
        i == j,
{
}

/// In single-expand mode, expanding an enabled section leaves exactly that
/// section expanded, whatever was expanded before.
pub proof fn lemma_single_expand_expand_only(s: Seq<Section>, index: int, i: int)
    requires
        0 <= index < s.len(),
        !s[index].disabled,
        0 <= i < s.len(),
    ensures
        expanded_after_expand(s, AccordionMode::SingleExpand, index, i) <==> i == index,
{
}

/// In single-expand mode, expanding any section, or expanding all of them,
/// keeps at most one section expanded when at most one was before.
pub proof fn lemma_single_expand_keeps_one(s: Seq<Section>, index: int, i: int, j: int)
    requires
        forall|a: int, b: int|
            0 <= a < s.len() && 0 <= b < s.len() && (#[trigger] s[a]).expanded && (#[trigger] s[b]).expanded ==> a == b,
        0 <= i < s.len(),
        0 <= j < s.len(),
    ensures
        expanded_after_expand(s, AccordionMode::SingleExpand, index, i) && expanded_after_expand(
            s,
            AccordionMode::SingleExpand,
            index,
            j,
        ) ==> i == j,
        expanded_after_expand_all(s, AccordionMode::SingleExpand, i) && expanded_after_expand_all(
            s,
            AccordionMode::SingleExpand,
            j,
        ) ==> i == j,
{
}

/// Toggling the same section twice restores every section's state.
pub proof fn lemma_toggle_twice(s: Seq<Section>, t: Seq<Section>, mode: AccordionMode, index: int, i: int)
    requires
        mode == AccordionMode::MultiExpand,
        only_expanded_changed(s, t),
        forall|k: int| 0 <= k < t.len() ==> (#[trigger] t[k]).expanded == expanded_after_toggle(s, mode, index, k),
        0 <= i < s.len(),
    ensures
        expanded_after_toggle(t, mode, index, i) == s[i].expanded,
{
    if 0 <= index < s.len() {
        assert(t[index].disabled == s[index].disabled);
        assert(t[index].expanded == expanded_after_toggle(s, mode, index, index));
    }
    assert(t[i].expanded == expanded_after_toggle(s, mode, index, i));
}

} // verus!
