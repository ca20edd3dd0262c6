//! Panel: a container with an optional background, border, rounded corners,
//! elevation and padding.
use crate::color::Color;
use crate::draw::{cmds, lemma_cmds_push, DrawCmd, DrawOp, ShadowKind};
use crate::layout::Padding;
use crate::theme::Theme;
use vstd::prelude::*;

verus! {

/// A container's look.
pub struct Panel {
    /// Background fill, if any.
    pub background: Option<Color>,
    /// Border thickness and color, if any.
    pub border: Option<(u16, Color)>,
    /// Corner radius in pixels.
    pub radius: u16,
    /// Shadow elevation level (0 = no shadow).
    pub elevation: u8,
    /// Padding inside the panel.
    pub padding: Padding,
}

impl Panel {
    /// A panel in the theme's surface color with a one-pixel border, large
    /// rounded corners, elevation 1 and medium padding on every side.
    pub fn themed(theme: &Theme) -> (r: Self)
        ensures
            r.background == Some(theme.surface),
            r.border == Some((1u16, theme.border)),
            r.radius == theme.border_radius_lg,
            r.elevation == 1,
            r.padding == (Padding {
                top: theme.spacing_md,
                right: theme.spacing_md,
                bottom: theme.spacing_md,
                left: theme.spacing_md,
            }),
    {
        Panel {
            background: Some(theme.surface),
            border: Some((1, theme.border)),
            radius: theme.border_radius_lg,
            elevation: 1,
            padding: Padding::uniform(theme.spacing_md),
        }
    }

    /// What drawing the panel at `(x, y, w, h)` asks the renderer to draw:
    /// the shadow of its elevation (when raised), its background and its
    /// border, each when it has one.
    pub fn draw_at(&self, x: i32, y: i32, w: u32, h: u32) -> (r: Vec<DrawOp>)
        ensures
            cmds(r@) == (if self.elevation > 0 {
                seq![DrawCmd::Shadow { x, y, w, h, radius: self.radius, kind: ShadowKind::Elevation(self.elevation) }]
            } else {
                Seq::empty()
            }) + (match self.background {
                Some(c) => seq![DrawCmd::FillRoundedRect { x, y, w, h, radius: self.radius, color: c }],
                None => Seq::empty(),
            }) + (match self.border {
                Some((bw, bc)) => seq![
                    DrawCmd::StrokeRoundedRect { x, y, w, h, radius: self.radius, width: bw, color: bc },
                ],
                None => Seq::empty(),
            }),
    {
        let mut out: Vec<DrawOp> = Vec::new();
        if self.elevation > 0 {
            out.push(
                DrawOp::Shadow { x, y, w, h, radius: self.radius, kind: ShadowKind::Elevation(self.elevation) },
            );
        }
        match self.background {
            Some(c) => {
                let op = DrawOp::FillRoundedRect { x, y, w, h, radius: self.radius, color: c };
                proof {
                    lemma_cmds_push(out@, op);
                }
                out.push(op);
            },
            None => {},
        }
        match self.border {
            Some((bw, bc)) => {
                let op = DrawOp::StrokeRoundedRect { x, y, w, h, radius: self.radius, width: bw, color: bc };
                proof {
                    lemma_cmds_push(out@, op);
                }
                out.push(op);
            },
            None => {},
        }
        proof {
            assert(cmds(out@) =~= (if self.elevation > 0 {
                seq![DrawCmd::Shadow { x, y, w, h, radius: self.radius, kind: ShadowKind::Elevation(self.elevation) }]
            } else {
                Seq::empty()
            }) + (match self.background {
                Some(c) => seq![DrawCmd::FillRoundedRect { x, y, w, h, radius: self.radius, color: c }],
                None => Seq::empty(),
            }) + (match self.border {
                Some((bw, bc)) => seq![
                    DrawCmd::StrokeRoundedRect { x, y, w, h, radius: self.radius, width: bw, color: bc },
                ],
                None => Seq::empty(),
            }));
        }
        out
    }
}

impl Default for Panel {
    /// No background, border, rounding, elevation or padding.
    fn default() -> (r: Self)
        ensures
            r.background.is_none(),
            r.border.is_none(),
            r.radius == 0,
            r.elevation == 0,
            r.padding == Padding::zero_spec(),
    {
        Panel { background: None, border: None, radius: 0, elevation: 0, padding: Padding::zero() }
    }
}

} // verus!
