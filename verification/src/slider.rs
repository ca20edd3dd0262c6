//! Slider keyboard handling and drawing.
use crate::input::Button;
pub use crate::styles::Orientation;
use crate::color::{dim_color, Color};
use crate::draw::{cmds, lemma_cmds_push, DrawCmd, DrawOp};
use crate::layout::{center, center_in_range, center_spec, sat_sub};
use crate::theme::Theme;
use vstd::prelude::*;

verus! {

/// Which way a key moves a slider: `1` toward the maximum, `-1` toward the
/// minimum, `0` when the key does nothing (or the slider is disabled).
/// Right and Up move a horizontal and a vertical slider up respectively;
/// Left and Down move them down.
pub open spec fn key_step_spec(orientation: Orientation, button: Button, disabled: bool) -> int {
    if disabled {
        0
    } else {
        match (orientation, button) {
            (Orientation::Horizontal, Button::Right) => 1,
            (Orientation::Vertical, Button::Up) => 1,
            (Orientation::Horizontal, Button::Left) => -1,
            (Orientation::Vertical, Button::Down) => -1,
            _ => 0,
        }
    }
}

/// Which way `button` moves a slider of the given orientation.
pub fn key_step(orientation: Orientation, button: Button, disabled: bool) -> (r: i8)
    ensures
        r == key_step_spec(orientation, button, disabled),
{
    if disabled {
        return 0;
    }
    match (orientation, button) {
        (Orientation::Horizontal, Button::Right) | (Orientation::Vertical, Button::Up) => 1,
        (Orientation::Horizontal, Button::Left) | (Orientation::Vertical, Button::Down) => -1,
        _ => 0,
    }
}

/// Thickness of a slider's track.
pub const TRACK_THICKNESS: u32 = 6;

/// A color with half its opacity, as disabled sliders are drawn.
pub open spec fn dim_spec(c: Color) -> Color {
    Color { a: c.a / 2, ..c }
}

/// What a slider looks like apart from its value: its orientation, whether
/// it is disabled, whether it shows its value as a label, and its thumb's
/// diameter.
#[derive(Debug, Clone, Copy, PartialEq, Eq, Structural)]
pub struct SliderFace {
    /// Direction of the track.
    pub orientation: Orientation,
    /// Whether the slider is drawn greyed out.
    pub disabled: bool,
    /// Whether the value is shown as a text label.
    pub show_value_label: bool,
    /// Thumb diameter in pixels.
    pub thumb_size: u16,
}

/// Length of the track of a slider `(w, h)`: the height of a vertical one;
/// for a horizontal one the width, less the room kept on the right for the
/// label when it is shown (`sample_w`, the width of the widest value, and
/// a small gap).
pub open spec fn track_extent_spec(f: SliderFace, theme: Theme, w: u32, h: u32, sample_w: u32) -> int {
    match f.orientation {
        Orientation::Horizontal => sat_sub(
            w as int,
            if f.show_value_label {
                sample_w + theme.spacing_sm
            } else {
                0
            },
        ),
        Orientation::Vertical => h as int,
    }
}

/// The thumb: its border disc and, when the radius exceeds one pixel, the
/// disc one pixel smaller inside it.
pub open spec fn thumb_ops(f: SliderFace, theme: Theme, cx: int, cy: int) -> Seq<DrawCmd> {
    let r = f.thumb_size / 2;
    seq![
        DrawCmd::FillCircle {
            cx: cx as i32,
            cy: cy as i32,
            r: r as u16,
            color: if f.disabled {
                theme.border_subtle
            } else {
                theme.accent
            },
        },
    ] + if r > 1 {
        seq![
            DrawCmd::FillCircle {
                cx: cx as i32,
                cy: cy as i32,
                r: (r - 1) as u16,
                color: if f.disabled {
                    dim_spec(theme.slider_thumb)
                } else {
                    theme.slider_thumb
                },
            },
        ]
    } else {
        Seq::empty()
    }
}

/// What a slider draws in `(x, y, w, h)`, given the filled length of its
/// track in pixels (`fill`), its value label and that label's width, the
/// width of the widest value (`sample_w`) and the text height: the track;
/// the filled part, when not empty (from the left, or up from the bottom);
/// the thumb at the end of the filled part; and the label when shown, right
/// of a horizontal track or centred below a vertical one.
pub open spec fn slider_ops(
    f: SliderFace,
    theme: Theme,
    x: i32,
    y: i32,
    w: u32,
    h: u32,
    fill: u32,
    label: Seq<char>,
    label_w: u32,
    sample_w: u32,
    text_h: u32,
) -> Seq<DrawCmd> {
    let fill_color = if f.disabled {
        theme.text_disabled
    } else {
        theme.slider_fill
    };
    let track_color = if f.disabled {
        dim_spec(theme.slider_track)
    } else {
        theme.slider_track
    };
    let text_color = if f.disabled {
        theme.text_disabled
    } else {
        theme.text_primary
    };
    let t = TRACK_THICKNESS;
    match f.orientation {
        Orientation::Horizontal => {
            let track_w = track_extent_spec(f, theme, w, h, sample_w);
            let ty = y + center_spec(h, t);
            seq![DrawCmd::FillRoundedRect { x, y: ty as i32, w: track_w as u32, h: t, radius: 3, color: track_color }]
                + (if fill > 0 {
                seq![DrawCmd::FillRoundedRect { x, y: ty as i32, w: fill, h: t, radius: 3, color: fill_color }]
            } else {
                Seq::empty()
            }) + thumb_ops(f, theme, x + fill, y + (h as int) / 2) + if f.show_value_label {
                seq![
                    DrawCmd::Text {
                        text: label,
                        x: (x + track_w + theme.spacing_sm) as i32,
                        y: (y + center_spec(h, text_h)) as i32,
                        font_size: theme.font_size_xs,
                        color: text_color,
                    },
                ]
            } else {
                Seq::empty()
            }
        },
        Orientation::Vertical => {
            let tx = x + center_spec(w, t);
            seq![DrawCmd::FillRoundedRect { x: tx as i32, y, w: t, h, radius: 3, color: track_color }] + (if fill
                > 0 {
                seq![
                    DrawCmd::FillRoundedRect {
                        x: tx as i32,
                        y: (y + h - fill) as i32,
                        w: t,
                        h: fill,
                        radius: 3,
                        color: fill_color,
                    },
                ]
            } else {
                Seq::empty()
            }) + thumb_ops(f, theme, x + (w as int) / 2, y + h - fill) + if f.show_value_label {
                seq![
                    DrawCmd::Text {
                        text: label,
                        x: (x + center_spec(w, label_w)) as i32,
                        y: (y + h + theme.spacing_xs) as i32,
                        font_size: theme.font_size_xs,
                        color: text_color,
                    },
                ]
            } else {
                Seq::empty()
            }
        },
    }
}

/// Whether drawing a slider in `(x, y, w, h)` stays inside `i32` and `u32`
/// arithmetic; a vertical slider's filled part fits its height.
pub open spec fn slider_draw_fits(
    f: SliderFace,
    theme: Theme,
    x: i32,
    y: i32,
    w: u32,
    h: u32,
    fill: u32,
    label_w: u32,
    sample_w: u32,
    text_h: u32,
) -> bool {
    &&& w < i32::MAX
    &&& h < i32::MAX
    &&& text_h <= i32::MAX
    &&& label_w <= i32::MAX
    &&& sample_w + theme.spacing_sm <= u32::MAX
    &&& x + w + theme.spacing_sm <= i32::MAX
    &&& y + h + theme.spacing_xs <= i32::MAX
    &&& x + fill <= i32::MAX
    &&& fill <= i32::MAX
    &&& f.orientation == Orientation::Vertical ==> fill <= h
}

impl SliderFace {
    /// Length of the track in pixels for a slider `(w, h)`, given the width
    /// of the widest value label; the filled length is a share of it.
    pub fn track_extent(&self, theme: &Theme, w: u32, h: u32, sample_w: u32) -> (r: u32)
        requires
            sample_w + theme.spacing_sm <= u32::MAX,
        ensures
            r == track_extent_spec(*self, *theme, w, h, sample_w),
    {
        match self.orientation {
            Orientation::Horizontal => {
                let reserve = if self.show_value_label {
                    sample_w + theme.spacing_sm as u32
                } else {
                    0
                };
                if w >= reserve {
                    w - reserve
                } else {
                    0
                }
            },
            Orientation::Vertical => h,
        }
    }

    /// The thumb at `(cx, cy)`.
    fn thumb(&self, theme: &Theme, cx: i32, cy: i32, out: &mut Vec<DrawOp>)
        ensures
            cmds(final(out)@) == cmds(old(out)@) + thumb_ops(*self, *theme, cx as int, cy as int),
    {
        let r = self.thumb_size / 2;
        let border = theme.interactive_border(self.disabled, true);
        let op = DrawOp::FillCircle { cx, cy, r, color: border };
        proof {
            lemma_cmds_push(out@, op);
        }
        out.push(op);
        if r > 1 {
            let inner = if self.disabled {
                dim_color(theme.slider_thumb)
            } else {
                theme.slider_thumb
            };
            let op2 = DrawOp::FillCircle { cx, cy, r: r - 1, color: inner };
            proof {
                lemma_cmds_push(out@, op2);
            }
            out.push(op2);
        }
        assert(cmds(out@) =~= cmds(old(out)@) + thumb_ops(*self, *theme, cx as int, cy as int));
    }

    /// What drawing the slider in `(x, y, w, h)` asks the renderer to draw,
    /// given the filled length of the track (see
    /// [`SliderFace::track_extent`]), the value label and its width, the
    /// width of the widest value label and the text height.
    pub fn draw(
        &self,
        theme: &Theme,
        x: i32,
        y: i32,
        w: u32,
        h: u32,
        fill: u32,
        label: &str,
        label_w: u32,
        sample_w: u32,
        text_h: u32,
    ) -> (r: Vec<DrawOp>)
        requires
            slider_draw_fits(*self, *theme, x, y, w, h, fill, label_w, sample_w, text_h),
        ensures
            cmds(r@) == slider_ops(*self, *theme, x, y, w, h, fill, label@, label_w, sample_w, text_h),
    {
        let fill_color = if self.disabled {
            theme.text_disabled
        } else {
            theme.slider_fill
        };
        let track_color = if self.disabled {
            dim_color(theme.slider_track)
        } else {
            theme.slider_track
        };
        let text_color = theme.interactive_text(self.disabled);
        let mut out: Vec<DrawOp> = Vec::new();
        match self.orientation {
            Orientation::Horizontal => {
                let track_w = self.track_extent(theme, w, h, sample_w);
                assert(center_in_range(h, TRACK_THICKNESS));
                let ty = y + center(h, TRACK_THICKNESS);
                let op = DrawOp::FillRoundedRect { x, y: ty, w: track_w, h: TRACK_THICKNESS, radius: 3, color: track_color };
                proof {
                    lemma_cmds_push(out@, op);
                }
                out.push(op);
                if fill > 0 {
                    let op = DrawOp::FillRoundedRect { x, y: ty, w: fill, h: TRACK_THICKNESS, radius: 3, color: fill_color };
                    proof {
                        lemma_cmds_push(out@, op);
                    }
                    out.push(op);
                }
                self.thumb(theme, x + fill as i32, y + (h as i32) / 2, &mut out);
                if self.show_value_label {
                    assert(center_in_range(h, text_h));
                    let op = DrawOp::Text {
                        text: String::from_str(label),
                        x: x + track_w as i32 + theme.spacing_sm as i32,
                        y: y + center(h, text_h),
                        font_size: theme.font_size_xs,
                        color: text_color,
                    };
                    proof {
                        lemma_cmds_push(out@, op);
                    }
                    out.push(op);
                }
            },
            Orientation::Vertical => {
                assert(center_in_range(w, TRACK_THICKNESS));
                let tx = x + center(w, TRACK_THICKNESS);
                let op = DrawOp::FillRoundedRect { x: tx, y, w: TRACK_THICKNESS, h, radius: 3, color: track_color };
                proof {
                    lemma_cmds_push(out@, op);
                }
                out.push(op);
                if fill > 0 {
                    {
                        let op = DrawOp::FillRoundedRect {
                            x: tx,
                            y: y + (h - fill) as i32,
                            w: TRACK_THICKNESS,
                            h: fill,
                            radius: 3,
                            color: fill_color,
                        };
                        proof {
                            lemma_cmds_push(out@, op);
                        }
                        out.push(op);
                    }
                }
                self.thumb(theme, x + (w as i32) / 2, y + h as i32 - fill as i32, &mut out);
                if self.show_value_label {
                    assert(center_in_range(w, label_w));
                    let op = DrawOp::Text {
                        text: String::from_str(label),
                        x: x + center(w, label_w),
                        y: y + h as i32 + theme.spacing_xs as i32,
                        font_size: theme.font_size_xs,
                        color: text_color,
                    };
                    proof {
                        lemma_cmds_push(out@, op);
                    }
                    out.push(op);
                }
            },
        }
        assert(cmds(out@) =~= slider_ops(*self, *theme, x, y, w, h, fill, label@, label_w, sample_w, text_h));
        out
    }
}

} // verus!
