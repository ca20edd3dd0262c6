//! Progress bar drawing.
use crate::draw::{cmds, lemma_cmds_push, DrawCmd, DrawOp};
use crate::layout::{center, center_in_range, center_spec};
pub use crate::styles::ProgressStyle;
use crate::theme::Theme;
use vstd::prelude::*;

verus! {

/// What a progress indicator looks like apart from its progress.
#[derive(Debug, Clone, Copy, PartialEq, Eq, Structural)]
pub struct ProgressFace {
    /// Bar, circle or indeterminate bar.
    pub style: ProgressStyle,
    /// Whether a bar shows its percentage.
    pub show_label: bool,
}

/// What a progress indicator draws in `(x, y, w, h)`, given the filled
/// width of a bar (`fill`), its percentage label and that label's width,
/// the text height, and whether a circle is complete (`full`): a bar draws
/// its track, the filled part when not empty, and the label centred when
/// shown; a circle draws its outline, and again in the accent when complete.
pub open spec fn progress_ops(
    p: ProgressFace,
    theme: Theme,
    x: i32,
    y: i32,
    w: u32,
    h: u32,
    fill: u32,
    label: Seq<char>,
    label_w: u32,
    text_h: u32,
    full: bool,
) -> Seq<DrawCmd> {
    match p.style {
        ProgressStyle::Circular => {
            let r = ((if h < w {
                h
            } else {
                w
            }) / 2) as u16;
            let ring = DrawCmd::StrokeCircle {
                cx: (x + r) as i32,
                cy: (y + r) as i32,
                r,
                width: 2,
                color: theme.scrollbar_track,
            };
            seq![ring] + if full {
                seq![
                    DrawCmd::StrokeCircle {
                        cx: (x + r) as i32,
                        cy: (y + r) as i32,
                        r,
                        width: 2,
                        color: theme.accent,
                    },
                ]
            } else {
                Seq::empty()
            }
        },
        _ => {
            let r = (h as u16) / 2;
            seq![DrawCmd::FillRoundedRect { x, y, w, h, radius: r, color: theme.scrollbar_track }] + (if fill
                > 0 {
                seq![DrawCmd::FillRoundedRect { x, y, w: fill, h, radius: r, color: theme.accent }]
            } else {
                Seq::empty()
            }) + if p.show_label {
                seq![
                    DrawCmd::Text {
                        text: label,
                        x: (x + center_spec(w, label_w)) as i32,
                        y: (y + center_spec(h, text_h)) as i32,
                        font_size: theme.font_size_xs,
                        color: theme.text_primary,
                    },
                ]
            } else {
                Seq::empty()
            }
        },
    }
}

impl ProgressFace {
    /// What drawing the indicator in `(x, y, w, h)` asks the renderer to
    /// draw, given the filled width, the label and its width, the text
    /// height and whether a circle is complete.
    pub fn draw(
        &self,
        theme: &Theme,
        x: i32,
        y: i32,
        w: u32,
        h: u32,
        fill: u32,
        label: &str,
        label_w: u32,
        text_h: u32,
        full: bool,
    ) -> (r: Vec<DrawOp>)
        requires
            self.style == ProgressStyle::Circular ==> x + u16::MAX <= i32::MAX && y + u16::MAX <= i32::MAX,
            self.style != ProgressStyle::Circular && self.show_label ==> {
                &&& center_in_range(w, label_w)
                &&& center_in_range(h, text_h)
                &&& i32::MIN <= x + center_spec(w, label_w) <= i32::MAX
                &&& i32::MIN <= y + center_spec(h, text_h) <= i32::MAX
            },
        ensures
            cmds(r@) == progress_ops(*self, *theme, x, y, w, h, fill, label@, label_w, text_h, full),
    {
        let mut out: Vec<DrawOp> = Vec::new();
        match self.style {
            ProgressStyle::Circular => {
                let m = if h < w {
                    h
                } else {
                    w
                };
                let r: u16 = #[verifier::truncate] ((m / 2) as u16);
                let cx = x + r as i32;
                let cy = y + r as i32;
                out.push(DrawOp::StrokeCircle { cx, cy, r, width: 2, color: theme.scrollbar_track });
                if full {
                    let op = DrawOp::StrokeCircle { cx, cy, r, width: 2, color: theme.accent };
                    proof {
                        lemma_cmds_push(out@, op);
                    }
                    out.push(op);
                }
            },
            _ => {
                let r = (#[verifier::truncate] (h as u16)) / 2;
                out.push(DrawOp::FillRoundedRect { x, y, w, h, radius: r, color: theme.scrollbar_track });
                if fill > 0 {
                    let op = DrawOp::FillRoundedRect { x, y, w: fill, h, radius: r, color: theme.accent };
                    proof {
                        lemma_cmds_push(out@, op);
                    }
                    out.push(op);
                }
                if self.show_label {
                    let op = DrawOp::Text {
                        text: String::from_str(label),
                        x: x + center(w, label_w),
                        y: y + center(h, text_h),
                        font_size: theme.font_size_xs,
                        color: theme.text_primary,
                    };
                    proof {
                        lemma_cmds_push(out@, op);
                    }
                    out.push(op);
                }
            },
        }
        assert(cmds(out@) =~= progress_ops(*self, *theme, x, y, w, h, fill, label@, label_w, text_h, full));
        out
    }
}

} // verus!
