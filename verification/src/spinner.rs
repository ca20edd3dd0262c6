//! Spinner (loading indicator) state.
use crate::color::Color;
use crate::draw::{cmds, lemma_cmds_push, DrawCmd, DrawOp};
use crate::layout::{center, center_in_range, center_spec, sat_sub};
use crate::text::push_char;
use crate::theme::Theme;
use vstd::prelude::*;

verus! {

/// Visual style of a spinner.
#[derive(Debug, Clone, Copy, PartialEq, Eq, Structural)]
pub enum SpinnerStyle {
    /// A rotating text character.
    Text,
    /// Three pulsing dots.
    Dots,
    /// A bouncing bar of eight segments.
    Bar,
}

/// An animated busy indicator driven by elapsed time.
pub struct Spinner {
    /// Visual style.
    pub style: SpinnerStyle,
    /// Milliseconds elapsed (wraps around).
    pub elapsed_ms: u32,
    /// Milliseconds each frame is shown.
    pub frame_duration_ms: u32,
    /// Optional label shown beside the indicator.
    pub label: Option<String>,
}

/// Number of animation frames of a style.
pub open spec fn frame_count_spec(style: SpinnerStyle) -> nat {
    match style {
        SpinnerStyle::Text => 4,
        SpinnerStyle::Dots => 3,
        SpinnerStyle::Bar => 8,
    }
}

/// The characters of the text spinner, in order.
pub open spec fn spinner_frames() -> Seq<char> {
    seq!['|', '/', '-', '\\']
}

/// The frame shown after `elapsed` milliseconds with frames of `duration`
/// milliseconds (a zero duration counts as one).
pub open spec fn frame_index_spec(style: SpinnerStyle, elapsed: u32, duration: u32) -> int {
    let d = if duration == 0 {
        1
    } else {
        duration as int
    };
    (elapsed as int / d) % (frame_count_spec(style) as int)
}

/// The character the text style shows.
pub open spec fn glyph_spec(s: Spinner, reduced_motion: bool) -> char {
    if reduced_motion {
        '*'
    } else {
        spinner_frames()[frame_index_spec(s.style, s.elapsed_ms, s.frame_duration_ms) % 4]
    }
}

/// Opacity of dot `i` of the dots style.
pub open spec fn dot_alpha_spec(s: Spinner, i: int, reduced_motion: bool) -> u8 {
    if reduced_motion {
        180u8
    } else if i == frame_index_spec(s.style, s.elapsed_ms, s.frame_duration_ms) {
        255u8
    } else {
        80u8
    }
}

/// Offset of the lit segment of the bar style on a track `bar_w` wide.
pub open spec fn bar_offset_spec(s: Spinner, bar_w: int, reduced_motion: bool) -> int {
    if reduced_motion {
        (bar_w - bar_w / 4) / 2
    } else {
        (bar_w - bar_w / 4) * frame_index_spec(s.style, s.elapsed_ms, s.frame_duration_ms) / (
        frame_count_spec(s.style) as int)
    }
}

/// The label, if any, drawn at `lx` on the text line `ty`.
pub open spec fn spinner_label_ops(s: Spinner, theme: Theme, lx: int, ty: int) -> Seq<DrawCmd> {
    match s.label {
        Some(l) => seq![
            DrawCmd::Text {
                text: l@,
                x: lx as i32,
                y: ty as i32,
                font_size: theme.font_size_md,
                color: theme.text_secondary,
            },
        ],
        None => Seq::empty(),
    }
}

/// Dot `i` of the dots style.
pub open spec fn dot_op(s: Spinner, theme: Theme, x: i32, y: i32, h: u32, i: int) -> DrawCmd {
    DrawCmd::FillRect {
        x: (x + 2 + i * 7) as i32,
        y: (y + center_spec(h, 4)) as i32,
        w: 4,
        h: 4,
        color: Color { a: dot_alpha_spec(s, i, theme.reduced_motion), ..theme.accent },
    }
}

/// What a spinner draws at `(x, y, w, h)`, given the text height and the
/// width of the text style's character: the character and the label
/// beside it; three dots and the label; or the bar's track and its lit
/// segment.
pub open spec fn spinner_ops(
    s: Spinner,
    theme: Theme,
    x: i32,
    y: i32,
    w: u32,
    h: u32,
    text_h: u32,
    char_w: u32,
) -> Seq<DrawCmd> {
    let ty = y + center_spec(h, text_h);
    match s.style {
        SpinnerStyle::Text => seq![
            DrawCmd::Text {
                text: seq![glyph_spec(s, theme.reduced_motion)],
                x: (x + 2) as i32,
                y: ty as i32,
                font_size: theme.font_size_md,
                color: theme.accent,
            },
        ] + spinner_label_ops(s, theme, x + 2 + char_w + 6, ty),
        SpinnerStyle::Dots => seq![
            dot_op(s, theme, x, y, h, 0),
            dot_op(s, theme, x, y, h, 1),
            dot_op(s, theme, x, y, h, 2),
        ] + spinner_label_ops(s, theme, x + 28, ty),
        SpinnerStyle::Bar => {
            let bar_h: u32 = if h < 4 {
                h
            } else {
                4
            };
            let bar_y = y + center_spec(h, bar_h);
            let bar_w = sat_sub(w as int, 4);
            seq![
                DrawCmd::FillRect {
                    x: (x + 2) as i32,
                    y: bar_y as i32,
                    w: bar_w as u32,
                    h: bar_h,
                    color: theme.scrollbar_track,
                },
                DrawCmd::FillRect {
                    x: (x + 2 + bar_offset_spec(s, bar_w, theme.reduced_motion)) as i32,
                    y: bar_y as i32,
                    w: (bar_w / 4) as u32,
                    h: bar_h,
                    color: theme.accent,
                },
            ]
        },
    }
}

/// Whether drawing the spinner at `(x, y, w, h)` stays inside `i32` and
/// `u32` arithmetic.
pub open spec fn spinner_draw_fits(
    s: Spinner,
    theme: Theme,
    x: i32,
    y: i32,
    w: u32,
    h: u32,
    text_h: u32,
    char_w: u32,
) -> bool {
    &&& h < i32::MAX
    &&& text_h <= i32::MAX
    &&& y + h <= i32::MAX
    &&& x + 2 + w <= i32::MAX
    &&& x + 28 <= i32::MAX
    &&& x + 2 + char_w + 6 <= i32::MAX
    &&& char_w <= i32::MAX
    &&& w <= i32::MAX
    &&& (s.style == SpinnerStyle::Bar && !theme.reduced_motion) ==> (sat_sub(w as int, 4) - sat_sub(
        w as int,
        4,
    ) / 4) * frame_index_spec(s.style, s.elapsed_ms, s.frame_duration_ms) <= u32::MAX
}

impl Spinner {
    /// Create a text spinner with 150 ms frames and no label.
    pub fn new() -> (r: Self)
        ensures
            r.style == SpinnerStyle::Text,
            r.elapsed_ms == 0,
            r.frame_duration_ms == 150,
            r.label.is_none(),
    {
        Spinner { style: SpinnerStyle::Text, elapsed_ms: 0, frame_duration_ms: 150, label: None }
    }

    /// Create a text spinner with a label.
    pub fn with_label(label: &str) -> (r: Self)
        ensures
            r.style == SpinnerStyle::Text,
            r.elapsed_ms == 0,
            r.frame_duration_ms == 150,
            r.label matches Some(l) && l@ == label@,
    {
        Spinner {
            style: SpinnerStyle::Text,
            elapsed_ms: 0,
            frame_duration_ms: 150,
            label: Some(label.to_string()),
        }
    }

    /// Advance the animation clock by `dt_ms` milliseconds, wrapping around.
    pub fn tick(&mut self, dt_ms: u32)
        ensures
            final(self).elapsed_ms == (old(self).elapsed_ms + dt_ms) % 0x1_0000_0000,
            final(self).style == old(self).style,
            final(self).frame_duration_ms == old(self).frame_duration_ms,
            final(self).label == old(self).label,
    {
        self.elapsed_ms = self.elapsed_ms.wrapping_add(dt_ms);
    }

    /// Number of frames of this spinner's style.
    fn frame_count(&self) -> (r: usize)
        ensures
            r == frame_count_spec(self.style),
    {
        match self.style {
            SpinnerStyle::Text => 4,
            SpinnerStyle::Dots => 3,
            SpinnerStyle::Bar => 8,
        }
    }

    /// Index of the frame currently shown.
    pub fn frame_index(&self) -> (r: usize)
        ensures
            r == frame_index_spec(self.style, self.elapsed_ms, self.frame_duration_ms),
            r < frame_count_spec(self.style),
    {
        let total_frames = self.frame_count();
        let effective_duration = if self.frame_duration_ms > 1 {
            self.frame_duration_ms
        } else {
            1
        };
        ((self.elapsed_ms / effective_duration) as usize) % total_frames
    }

    /// The character of the text spinner for the current frame.
    pub fn current_char(&self) -> (r: char)
        ensures
            r == spinner_frames()[frame_index_spec(self.style, self.elapsed_ms, self.frame_duration_ms) % 4],
    {
        let i = self.frame_index() % 4;
        match i {
            0 => '|',
            1 => '/',
            2 => '-',
            _ => '\\',
        }
    }

    /// The character the text style shows: a static `*` when motion is
    /// reduced, the current frame's character otherwise.
    pub fn glyph(&self, reduced_motion: bool) -> (r: char)
        ensures
            r == if reduced_motion {
                '*'
            } else {
                spinner_frames()[frame_index_spec(self.style, self.elapsed_ms, self.frame_duration_ms) % 4]
            },
    {
        if reduced_motion {
            '*'
        } else {
            self.current_char()
        }
    }

    /// Horizontal offset of the label from the spinner's left edge: after
    /// the character (`char_w` pixels wide) and a 6-pixel gap for the text
    /// style, after the three dots and a 4-pixel gap for the dots style; the
    /// bar style draws no label.
    pub fn label_offset(&self, char_w: u32) -> (r: Option<u32>)
        requires
            char_w <= u32::MAX - 8,
        ensures
            r == match self.style {
                SpinnerStyle::Text => if self.label is Some {
                    Some((2 + char_w + 6) as u32)
                } else {
                    None::<u32>
                },
                SpinnerStyle::Dots => if self.label is Some {
                    Some(28u32)
                } else {
                    None::<u32>
                },
                SpinnerStyle::Bar => None::<u32>,
            },
    {
        if self.label.is_none() {
            return None;
        }
        match self.style {
            SpinnerStyle::Text => Some(2 + char_w + 6),
            SpinnerStyle::Dots => Some(2 + (3 * 4 + 2 * 3 + 4) + 4),
            SpinnerStyle::Bar => None,
        }
    }

    /// What drawing the spinner at `(x, y, w, h)` asks the renderer to draw,
    /// given the text height and the width of the text style's character.
    #[verifier::rlimit(30)]
    pub fn draw(&self, theme: &Theme, x: i32, y: i32, w: u32, h: u32, text_h: u32, char_w: u32) -> (r:
        Vec<DrawOp>)
        requires
            spinner_draw_fits(*self, *theme, x, y, w, h, text_h, char_w),
        ensures
            cmds(r@) == spinner_ops(*self, *theme, x, y, w, h, text_h, char_w),
    {
        let fs = theme.font_size_md;
        assert(center_in_range(h, text_h));
        let ty = y + center(h, text_h);
        let mut out: Vec<DrawOp> = Vec::new();
        let lx: i32 = match self.style {
            SpinnerStyle::Text => {
                let mut t = String::new();
                push_char(&mut t, self.glyph(theme.reduced_motion));
                let op = DrawOp::Text { text: t, x: x + 2, y: ty, font_size: fs, color: theme.accent };
                proof {
                    lemma_cmds_push(out@, op);
                }
                out.push(op);
                x + 2 + char_w as i32 + 6
            },
            SpinnerStyle::Dots => {
                assert(center_in_range(h, 4));
                let dot_y = y + center(h, 4);
                let mut i: u32 = 0;
                while i < 3
                    invariant
                        i <= 3,
                        self.style == SpinnerStyle::Dots,
                        spinner_draw_fits(*self, *theme, x, y, w, h, text_h, char_w),
                        dot_y == y + center_spec(h, 4),
                        cmds(out@) == Seq::new(i as nat, |k: int| dot_op(*self, *theme, x, y, h, k)),
                    decreases 3 - i,
                {
                    let alpha = self.dot_alpha(i, theme.reduced_motion);
                    let op = DrawOp::FillRect {
                        x: x + 2 + (i * 7) as i32,
                        y: dot_y,
                        w: 4,
                        h: 4,
                        color: theme.accent.with_alpha(alpha),
                    };
                    proof {
                        lemma_cmds_push(out@, op);
                    }
                    out.push(op);
                    assert(cmds(out@) =~= Seq::new((i + 1) as nat, |k: int| dot_op(*self, *theme, x, y, h, k)));
                    i = i + 1;
                }
                x + 28
            },
            SpinnerStyle::Bar => {
                let bar_h: u32 = if h < 4 {
                    h
                } else {
                    4
                };
                assert(center_in_range(h, bar_h));
                let bar_y = y + center(h, bar_h);
                let bar_w: u32 = if w >= 4 {
                    w - 4
                } else {
                    0
                };
                let track = DrawOp::FillRect {
                    x: x + 2,
                    y: bar_y,
                    w: bar_w,
                    h: bar_h,
                    color: theme.scrollbar_track,
                };
                proof {
                    lemma_cmds_push(out@, track);
                }
                out.push(track);
                let (pos, fill_w) = self.bar_segment(bar_w, theme.reduced_motion);
                let seg = DrawOp::FillRect {
                    x: x + 2 + pos as i32,
                    y: bar_y,
                    w: fill_w,
                    h: bar_h,
                    color: theme.accent,
                };
                proof {
                    lemma_cmds_push(out@, seg);
                }
                out.push(seg);
                assert(cmds(out@) =~= spinner_ops(*self, *theme, x, y, w, h, text_h, char_w));
                return out;
            },
        };
        match &self.label {
            Some(l) => {
                let op = DrawOp::Text { text: l.clone(), x: lx, y: ty, font_size: fs, color: theme.text_secondary };
                proof {
                    lemma_cmds_push(out@, op);
                }
                out.push(op);
            },
            None => {},
        }
        assert(cmds(out@) =~= spinner_ops(*self, *theme, x, y, w, h, text_h, char_w));
        out
    }

    /// Opacity of dot `i` of the dots style: every dot half lit when motion
    /// is reduced, otherwise the dot of the current frame fully lit and the
    /// others dim.
    pub fn dot_alpha(&self, i: u32, reduced_motion: bool) -> (r: u8)
        ensures
            r == if reduced_motion {
                180u8
            } else if i == frame_index_spec(self.style, self.elapsed_ms, self.frame_duration_ms) {
                255u8
            } else {
                80u8
            },
    {
        if reduced_motion {
            180
        } else if i as usize == self.frame_index() {
            255
        } else {
            80
        }
    }

    /// Offset and width of the lit segment of the bar style on a track
    /// `bar_w` pixels wide: a quarter of the track, centred when motion is
    /// reduced, otherwise sliding along the track with the frames.
    pub fn bar_segment(&self, bar_w: u32, reduced_motion: bool) -> (r: (u32, u32))
        requires
            !reduced_motion ==> (bar_w - bar_w / 4) * frame_index_spec(
                self.style,
                self.elapsed_ms,
                self.frame_duration_ms,
            ) <= u32::MAX,
        ensures
            r.1 == bar_w / 4,
            r.0 == if reduced_motion {
                (bar_w - bar_w / 4) / 2
            } else {
                (bar_w - bar_w / 4) * frame_index_spec(
                    self.style,
                    self.elapsed_ms,
                    self.frame_duration_ms,
                ) / (frame_count_spec(self.style) as int)
            },
            r.0 + r.1 <= bar_w,
    {
        let fill_w = bar_w / 4;
        let travel = bar_w - fill_w;
        if reduced_motion {
            return ((bar_w - fill_w) / 2, fill_w);
        }
        let frame = self.frame_index();
        let total = self.frame_count();
        let f = frame as u32;
        let t = total as u32;
        assert(travel * f / (t as int) <= travel) by (nonlinear_arith)
            requires
                f < t,
                t >= 1,
                travel >= 0,
        {
        }
        (travel * f / t, fill_w)
    }
}

impl Default for Spinner {
    fn default() -> (r: Self)
        ensures
            r.style == SpinnerStyle::Text,
            r.elapsed_ms == 0,
            r.frame_duration_ms == 150,
            r.label.is_none(),
    {
        Spinner::new()
    }
}

} // verus!
