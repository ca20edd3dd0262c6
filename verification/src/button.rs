//! Button widget state.
use crate::color::Color;
use crate::draw::{cmds, lemma_cmds_push, DrawCmd, DrawOp};
use crate::icon::Icon;
use crate::layout::{center, center_in_range, center_spec, Padding};
use crate::theme::Theme;
use vstd::prelude::*;

verus! {

/// Interaction state of a button.
#[derive(Debug, Clone, Copy, PartialEq, Eq, Structural)]
pub enum ButtonState {
    /// Resting state.
    Normal,
    /// Pointer hovering.
    Hover,
    /// Pointer pressed.
    Pressed,
    /// Not interactive.
    Disabled,
}

/// Visual style of a button.
#[derive(Debug, Clone, Copy, PartialEq, Eq, Structural)]
pub enum ButtonStyle {
    /// Filled with the accent color.
    Primary,
    /// Filled with the neutral button color.
    Secondary,
    /// Border only.
    Outline,
    /// No border, no fill at rest.
    Flat,
}

/// A clickable button with a label and an optional icon.
pub struct Button {
    /// Label text.
    pub label: String,
    /// Optional icon shown before the label.
    pub icon: Option<Icon>,
    /// Current interaction state.
    pub state: ButtonState,
    /// Visual style.
    pub style: ButtonStyle,
    /// Padding inside the button.
    pub padding: Padding,
}

/// Background fill of a button (see [`Button::bg_color`]).
pub open spec fn button_bg_spec(b: Button, theme: Theme) -> Option<Color> {
    match b.style {
        ButtonStyle::Primary => Some(
            match b.state {
                ButtonState::Pressed => theme.accent_pressed,
                ButtonState::Hover => theme.accent_hover,
                ButtonState::Disabled => theme.button_bg_disabled,
                ButtonState::Normal => theme.accent,
            },
        ),
        ButtonStyle::Secondary => Some(
            match b.state {
                ButtonState::Pressed => theme.button_bg_pressed,
                ButtonState::Hover => theme.button_bg_hover,
                ButtonState::Disabled => theme.button_bg_disabled,
                ButtonState::Normal => theme.button_bg,
            },
        ),
        _ => match b.state {
            ButtonState::Hover => Some(theme.accent_subtle),
            ButtonState::Pressed => Some(theme.button_bg_pressed),
            _ => None,
        },
    }
}

/// Label color of a button (see [`Button::text_color`]).
pub open spec fn button_text_spec(b: Button, theme: Theme) -> Color {
    if b.state == ButtonState::Disabled {
        theme.text_disabled
    } else if b.style == ButtonStyle::Primary {
        theme.text_on_accent
    } else {
        theme.text_primary
    }
}

/// What a button draws in `(x, y, w, h)`, given its label's measured width
/// and height: its fill (when its style and state have one), an outline
/// for the outline style, and the label centred.
pub open spec fn button_ops(b: Button, theme: Theme, x: i32, y: i32, w: u32, h: u32, text_w: u32, text_h: u32) -> Seq<
    DrawCmd,
> {
    let r = theme.border_radius_md;
    (match button_bg_spec(b, theme) {
        Some(c) => seq![DrawCmd::FillRoundedRect { x, y, w, h, radius: r, color: c }],
        None => Seq::empty(),
    }) + (if b.style == ButtonStyle::Outline {
        seq![
            DrawCmd::StrokeRoundedRect {
                x,
                y,
                w,
                h,
                radius: r,
                width: 1,
                color: if b.state == ButtonState::Disabled {
                    theme.border_subtle
                } else {
                    theme.border
                },
            },
        ]
    } else {
        Seq::empty()
    }) + seq![
        DrawCmd::Text {
            text: b.label@,
            x: (x + center_spec(w, text_w)) as i32,
            y: (y + center_spec(h, text_h)) as i32,
            font_size: theme.font_size_md,
            color: button_text_spec(b, theme),
        },
    ]
}

impl Button {
    /// Create a secondary-style button with the given label.
    pub fn new(label: &str) -> (r: Self)
        ensures
            r.label@ == label@,
            r.icon.is_none(),
            r.state == ButtonState::Normal,
            r.style == ButtonStyle::Secondary,
            r.padding == (Padding { top: 4, right: 8, bottom: 4, left: 8 }),
    {
        Button {
            label: label.to_string(),
            icon: None,
            state: ButtonState::Normal,
            style: ButtonStyle::Secondary,
            padding: Padding::symmetric(8, 4),
        }
    }

    /// Create a primary-style button with the given label.
    pub fn primary(label: &str) -> (r: Self)
        ensures
            r.label@ == label@,
            r.icon.is_none(),
            r.state == ButtonState::Normal,
            r.style == ButtonStyle::Primary,
            r.padding == (Padding { top: 4, right: 8, bottom: 4, left: 8 }),
    {
        let b = Button::new(label);
        Button { style: ButtonStyle::Primary, ..b }
    }

    /// What drawing the button in `(x, y, w, h)` asks the renderer to draw,
    /// given its label's measured width and height.
    pub fn draw(&self, theme: &Theme, x: i32, y: i32, w: u32, h: u32, text_w: u32, text_h: u32) -> (r: Vec<
        DrawOp,
    >)
        requires
            center_in_range(w, text_w),
            center_in_range(h, text_h),
            i32::MIN <= x + center_spec(w, text_w) <= i32::MAX,
            i32::MIN <= y + center_spec(h, text_h) <= i32::MAX,
        ensures
            cmds(r@) == button_ops(*self, *theme, x, y, w, h, text_w, text_h),
    {
        let radius = theme.border_radius_md;
        let mut out: Vec<DrawOp> = Vec::new();
        match self.bg_color(theme) {
            Some(c) => {
                out.push(DrawOp::FillRoundedRect { x, y, w, h, radius, color: c });
            },
            None => {},
        }
        if self.style == ButtonStyle::Outline {
            let bc = if self.state == ButtonState::Disabled {
                theme.border_subtle
            } else {
                theme.border
            };
            let op = DrawOp::StrokeRoundedRect { x, y, w, h, radius, width: 1, color: bc };
            proof {
                lemma_cmds_push(out@, op);
            }
            out.push(op);
        }
        let op = DrawOp::Text {
            text: self.label.clone(),
            x: x + center(w, text_w),
            y: y + center(h, text_h),
            font_size: theme.font_size_md,
            color: self.text_color(theme),
        };
        proof {
            lemma_cmds_push(out@, op);
        }
        out.push(op);
        assert(cmds(out@) =~= button_ops(*self, *theme, x, y, w, h, text_w, text_h));
        out
    }

    /// Background fill for the button's style and state: primary buttons
    /// use the accent shades, secondary ones the neutral shades (both grey
    /// out when disabled); outline and flat buttons are only filled while
    /// hovered (subtle accent) or pressed.
    pub fn bg_color(&self, theme: &Theme) -> (r: Option<Color>)
        ensures
            r == button_bg_spec(*self, *theme),
    {
        match self.style {
            ButtonStyle::Primary => Some(
                match self.state {
                    ButtonState::Pressed => theme.accent_pressed,
                    ButtonState::Hover => theme.accent_hover,
                    ButtonState::Disabled => theme.button_bg_disabled,
                    _ => theme.accent,
                },
            ),
            ButtonStyle::Secondary => Some(
                match self.state {
                    ButtonState::Pressed => theme.button_bg_pressed,
                    ButtonState::Hover => theme.button_bg_hover,
                    ButtonState::Disabled => theme.button_bg_disabled,
                    _ => theme.button_bg,
                },
            ),
            ButtonStyle::Outline | ButtonStyle::Flat => {
                if self.state == ButtonState::Hover {
                    Some(theme.accent_subtle)
                } else if self.state == ButtonState::Pressed {
                    Some(theme.button_bg_pressed)
                } else {
                    None
                }
            },
        }
    }

    /// Label color: disabled text when disabled, text on accent for
    /// primary buttons, primary text otherwise.
    pub fn text_color(&self, theme: &Theme) -> (r: Color)
        ensures
            r == button_text_spec(*self, *theme),
    {
        if self.state == ButtonState::Disabled {
            return theme.text_disabled;
        }
        match self.style {
            ButtonStyle::Primary => theme.text_on_accent,
            _ => theme.text_primary,
        }
    }
}

} // verus!
