//! Draw operations: what a widget asks the renderer to draw, as plain
//! values, in order.
use crate::color::Color;
use crate::focus::{sat_i32, sat_u32, FocusManager, FocusStyle, Rect};
use crate::theme::Theme;
use vstd::prelude::*;

verus! {

/// Which of the theme's shadows a shadow call draws.
#[derive(Debug, Clone, Copy, PartialEq, Eq, Structural)]
pub enum ShadowKind {
    /// The shadow under drop-down lists and menus.
    Dropdown,
    /// The shadow under dialogs.
    Modal,
    /// The shadow under tooltips.
    Tooltip,
    /// The shadow of a panel raised to the given elevation.
    Elevation(u8),
}

/// One drawing call.
#[derive(Debug, Clone, PartialEq)]
pub enum DrawOp {
    /// A filled rectangle.
    FillRect { x: i32, y: i32, w: u32, h: u32, color: Color },
    /// A filled rectangle with rounded corners.
    FillRoundedRect { x: i32, y: i32, w: u32, h: u32, radius: u16, color: Color },
    /// A rectangle outline.
    StrokeRect { x: i32, y: i32, w: u32, h: u32, width: u16, color: Color },
    /// A rounded rectangle outline.
    StrokeRoundedRect { x: i32, y: i32, w: u32, h: u32, radius: u16, width: u16, color: Color },
    /// A straight line.
    Line { x1: i32, y1: i32, x2: i32, y2: i32, width: u16, color: Color },
    /// Text with its top-left corner at `(x, y)`.
    Text { text: String, x: i32, y: i32, font_size: u16, color: Color },
    /// Text cut with an ellipsis to at most `max_w` pixels.
    TextEllipsis { text: String, x: i32, y: i32, font_size: u16, color: Color, max_w: u32 },
    /// Text wrapped to lines at most `max_w` pixels wide, `line_h` apart
    /// (0: the font's height).
    TextWrapped { text: String, x: i32, y: i32, font_size: u16, color: Color, max_w: u32, line_h: u32 },
    /// One of the theme's shadows behind the rounded rectangle.
    Shadow { x: i32, y: i32, w: u32, h: u32, radius: u16, kind: ShadowKind },
    /// The part `(sx, sy, sw, sh)` of a texture copied, tinted, onto the
    /// rectangle `(x, y, w, h)`.
    Blit {
        texture: u32,
        sx: u32,
        sy: u32,
        sw: u32,
        sh: u32,
        x: i32,
        y: i32,
        w: u32,
        h: u32,
        tint: Color,
    },
    /// A filled circle of radius `r` centred on `(cx, cy)`.
    FillCircle { cx: i32, cy: i32, r: u16, color: Color },
    /// A circle outline of radius `r` centred on `(cx, cy)`.
    StrokeCircle { cx: i32, cy: i32, r: u16, width: u16, color: Color },
    /// Limit drawing to the rectangle until the matching `PopClip`.
    PushClip { x: i32, y: i32, w: u32, h: u32 },
    /// End the innermost `PushClip`.
    PopClip,
    /// Item `index` of a list, drawn by the list's owner into the row
    /// `(x, y, w, h)`.
    Item { index: usize, x: i32, y: i32, w: u32, h: u32, selected: bool },
}

/// What a drawing call means: the same call with its text taken as a
/// sequence of characters.
pub enum DrawCmd {
    /// A filled rectangle.
    FillRect { x: i32, y: i32, w: u32, h: u32, color: Color },
    /// A filled rectangle with rounded corners.
    FillRoundedRect { x: i32, y: i32, w: u32, h: u32, radius: u16, color: Color },
    /// A rectangle outline.
    StrokeRect { x: i32, y: i32, w: u32, h: u32, width: u16, color: Color },
    /// A rounded rectangle outline.
    StrokeRoundedRect { x: i32, y: i32, w: u32, h: u32, radius: u16, width: u16, color: Color },
    /// A straight line.
    Line { x1: i32, y1: i32, x2: i32, y2: i32, width: u16, color: Color },
    /// Text with its top-left corner at `(x, y)`.
    Text { text: Seq<char>, x: i32, y: i32, font_size: u16, color: Color },
    /// Text cut with an ellipsis to at most `max_w` pixels.
    TextEllipsis { text: Seq<char>, x: i32, y: i32, font_size: u16, color: Color, max_w: u32 },
    /// Text wrapped to lines at most `max_w` pixels wide, `line_h` apart.
    TextWrapped { text: Seq<char>, x: i32, y: i32, font_size: u16, color: Color, max_w: u32, line_h: u32 },
    /// One of the theme's shadows behind the rounded rectangle.
    Shadow { x: i32, y: i32, w: u32, h: u32, radius: u16, kind: ShadowKind },
    /// The part `(sx, sy, sw, sh)` of a texture copied, tinted, onto the
    /// rectangle `(x, y, w, h)`.
    Blit {
        texture: u32,
        sx: u32,
        sy: u32,
        sw: u32,
        sh: u32,
        x: i32,
        y: i32,
        w: u32,
        h: u32,
        tint: Color,
    },
    /// A filled circle of radius `r` centred on `(cx, cy)`.
    FillCircle { cx: i32, cy: i32, r: u16, color: Color },
    /// A circle outline of radius `r` centred on `(cx, cy)`.
    StrokeCircle { cx: i32, cy: i32, r: u16, width: u16, color: Color },
    /// Limit drawing to the rectangle until the matching `PopClip`.
    PushClip { x: i32, y: i32, w: u32, h: u32 },
    /// End the innermost `PushClip`.
    PopClip,
    /// Item `index` of a list, drawn by the list's owner into the row
    /// `(x, y, w, h)`.
    Item { index: usize, x: i32, y: i32, w: u32, h: u32, selected: bool },
}

impl View for DrawOp {
    type V = DrawCmd;

    open spec fn view(&self) -> DrawCmd {
        match *self {
            DrawOp::FillRect { x, y, w, h, color } => DrawCmd::FillRect { x, y, w, h, color },
            DrawOp::FillRoundedRect { x, y, w, h, radius, color } => DrawCmd::FillRoundedRect {
                x,
                y,
                w,
                h,
                radius,
                color,
            },
            DrawOp::StrokeRect { x, y, w, h, width, color } => DrawCmd::StrokeRect {
                x,
                y,
                w,
                h,
                width,
                color,
            },
            DrawOp::StrokeRoundedRect { x, y, w, h, radius, width, color } =>
                DrawCmd::StrokeRoundedRect { x, y, w, h, radius, width, color },
            DrawOp::Line { x1, y1, x2, y2, width, color } => DrawCmd::Line {
                x1,
                y1,
                x2,
                y2,
                width,
                color,
            },
            DrawOp::Text { text, x, y, font_size, color } => DrawCmd::Text {
                text: text@,
                x,
                y,
                font_size,
                color,
            },
            DrawOp::TextEllipsis { text, x, y, font_size, color, max_w } => DrawCmd::TextEllipsis {
                text: text@,
                x,
                y,
                font_size,
                color,
                max_w,
            },
            DrawOp::TextWrapped { text, x, y, font_size, color, max_w, line_h } => DrawCmd::TextWrapped {
                text: text@,
                x,
                y,
                font_size,
                color,
                max_w,
                line_h,
            },
            DrawOp::Shadow { x, y, w, h, radius, kind } => DrawCmd::Shadow { x, y, w, h, radius, kind },
            DrawOp::FillCircle { cx, cy, r, color } => DrawCmd::FillCircle { cx, cy, r, color },
            DrawOp::StrokeCircle { cx, cy, r, width, color } => DrawCmd::StrokeCircle { cx, cy, r, width, color },
            DrawOp::PushClip { x, y, w, h } => DrawCmd::PushClip { x, y, w, h },
            DrawOp::PopClip => DrawCmd::PopClip,
            DrawOp::Item { index, x, y, w, h, selected } => DrawCmd::Item { index, x, y, w, h, selected },
            DrawOp::Blit { texture, sx, sy, sw, sh, x, y, w, h, tint } => DrawCmd::Blit {
                texture,
                sx,
                sy,
                sw,
                sh,
                x,
                y,
                w,
                h,
                tint,
            },
        }
    }
}

/// What a list of drawing calls means, call by call.
pub open spec fn cmds(ops: Seq<DrawOp>) -> Seq<DrawCmd> {
    ops.map_values(|o: DrawOp| o@)
}

/// Appending calls appends what they mean.
pub proof fn lemma_cmds_add(a: Seq<DrawOp>, b: Seq<DrawOp>)
    ensures
        cmds(a + b) == cmds(a) + cmds(b),
{
    assert(cmds(a + b) =~= cmds(a) + cmds(b));
}

/// Pushing a call pushes what it means.
pub proof fn lemma_cmds_push(a: Seq<DrawOp>, o: DrawOp)
    ensures
        cmds(a.push(o)) == cmds(a).push(o@),
{
    assert(cmds(a.push(o)) =~= cmds(a).push(o@));
}

/// The outline a focus style draws around the widget rectangle
/// `(x, y, w, h)`: its indicator rectangle, stroked with its radius, width
/// and color.
pub open spec fn focus_ring_op(s: FocusStyle, x: i32, y: i32, w: u32, h: u32) -> DrawCmd {
    DrawCmd::StrokeRoundedRect {
        x: sat_i32(x - s.offset) as i32,
        y: sat_i32(y - s.offset) as i32,
        w: sat_u32(w + sat_i32(2 * s.offset)) as u32,
        h: sat_u32(h + sat_i32(2 * s.offset)) as u32,
        radius: s.radius,
        width: s.width,
        color: s.color,
    }
}

/// The focus style a theme gives (`FocusStyle::from_theme`).
pub open spec fn theme_focus_style(theme: Theme) -> FocusStyle {
    FocusStyle {
        color: match theme.focus_ring_color {
            Some(c) => c,
            None => theme.accent,
        },
        width: match theme.focus_ring_width {
            Some(w) => w,
            None => 1u16,
        },
        radius: 2,
        offset: match theme.focus_ring_offset {
            Some(o) => o,
            None => 1i32,
        },
    }
}

impl FocusStyle {
    /// The outline drawn around the widget rectangle `(x, y, w, h)`.
    pub fn draw(&self, x: i32, y: i32, w: u32, h: u32) -> (r: DrawOp)
        ensures
            r@ == focus_ring_op(*self, x, y, w, h),
    {
        let (fx, fy, fw, fh) = self.indicator_rect(x, y, w, h);
        DrawOp::StrokeRoundedRect {
            x: fx,
            y: fy,
            w: fw,
            h: fh,
            radius: self.radius,
            width: self.width,
            color: self.color,
        }
    }
}

impl FocusManager {
    /// The focus ring around item `index`'s rectangle `(x, y, w, h)` in
    /// `style`, drawn only while that item has visible focus.
    pub fn draw_indicator(&self, index: usize, style: &FocusStyle, x: i32, y: i32, w: u32, h: u32) -> (r: Vec<
        DrawOp,
    >)
        ensures
            cmds(r@) == if self.active_spec() && self.ring_spec().focused_spec() == index {
                seq![focus_ring_op(*style, x, y, w, h)]
            } else {
                Seq::empty()
            },
    {
        let mut out: Vec<DrawOp> = Vec::new();
        if self.has_focus(index) {
            out.push(style.draw(x, y, w, h));
        }
        assert(cmds(out@) =~= if self.active_spec() && self.ring_spec().focused_spec() == index {
            seq![focus_ring_op(*style, x, y, w, h)]
        } else {
            Seq::empty()
        });
        out
    }

    /// The focus ring around item `index`'s rectangle in the theme's focus
    /// style, drawn only while that item has visible focus.
    pub fn draw_indicator_themed(&self, index: usize, theme: &Theme, x: i32, y: i32, w: u32, h: u32) -> (r: Vec<
        DrawOp,
    >)
        ensures
            cmds(r@) == if self.active_spec() && self.ring_spec().focused_spec() == index {
                seq![focus_ring_op(theme_focus_style(*theme), x, y, w, h)]
            } else {
                Seq::empty()
            },
    {
        let style = FocusStyle::from_theme(theme);
        assert(style == theme_focus_style(*theme));
        self.draw_indicator(index, &style, x, y, w, h)
    }
}

/// The style of a stand-alone focus ring: a 2-pixel stroke, corner radius
/// 3, two pixels out from the widget.
pub open spec fn ring_style(color: Color, width: u16, offset: i32) -> FocusStyle {
    FocusStyle { color, width, radius: 3, offset }
}

/// A focus ring of `color` around `bounds`.
pub fn draw_focus_ring(bounds: &Rect, color: Color) -> (r: DrawOp)
    ensures
        r@ == focus_ring_op(ring_style(color, 2, 2), bounds.x, bounds.y, bounds.w, bounds.h),
{
    let style = FocusStyle { color, width: 2, radius: 3, offset: 2 };
    style.draw(bounds.x, bounds.y, bounds.w, bounds.h)
}

/// A focus ring around `bounds` in the theme's ring color, width and offset
/// where the theme sets them, else as [`draw_focus_ring`] draws it in the
/// accent color.
pub fn draw_focus_ring_themed(bounds: &Rect, theme: &Theme) -> (r: DrawOp)
    ensures
        r@ == focus_ring_op(
            ring_style(
                match theme.focus_ring_color {
                    Some(c) => c,
                    None => theme.accent,
                },
                match theme.focus_ring_width {
                    Some(w) => w,
                    None => 2u16,
                },
                match theme.focus_ring_offset {
                    Some(o) => o,
                    None => 2i32,
                },
            ),
            bounds.x,
            bounds.y,
            bounds.w,
            bounds.h,
        ),
{
    let color = match theme.focus_ring_color {
        Some(c) => c,
        None => theme.accent,
    };
    let width = match theme.focus_ring_width {
        Some(w) => w,
        None => 2,
    };
    let offset = match theme.focus_ring_offset {
        Some(o) => o,
        None => 2,
    };
    let style = FocusStyle { color, width, radius: 3, offset };
    style.draw(bounds.x, bounds.y, bounds.w, bounds.h)
}

} // verus!
