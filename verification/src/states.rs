//! Interaction states shared by widgets, and the theme colors each state
//! picks.
use crate::color::Color;
use crate::theme::Theme;
use vstd::prelude::*;

verus! {

/// The interaction state of a widget.
#[derive(Debug, Clone, Copy, PartialEq, Eq, Structural)]
pub enum WidgetState {
    /// Resting state.
    Normal,
    /// Pointer hovering.
    Hover,
    /// Pointer pressed.
    Pressed,
    /// Not interactive.
    Disabled,
}

/// The state implied by the three flags: disabled beats pressed, which
/// beats hover.
pub open spec fn from_flags_spec(hover: bool, pressed: bool, disabled: bool) -> WidgetState {
    if disabled {
        WidgetState::Disabled
    } else if pressed {
        WidgetState::Pressed
    } else if hover {
        WidgetState::Hover
    } else {
        WidgetState::Normal
    }
}

impl WidgetState {
    /// Derive the state from the hover, pressed and disabled flags.
    pub fn from_flags(hover: bool, pressed: bool, disabled: bool) -> (r: Self)
        ensures
            r == from_flags_spec(hover, pressed, disabled),
    {
        if disabled {
            WidgetState::Disabled
        } else if pressed {
            WidgetState::Pressed
        } else if hover {
            WidgetState::Hover
        } else {
            WidgetState::Normal
        }
    }

    /// Whether this is the disabled state.
    pub fn is_disabled(self) -> (r: bool)
        ensures
            r == (self == WidgetState::Disabled),
    {
        match self {
            WidgetState::Disabled => true,
            _ => false,
        }
    }
}

impl Default for WidgetState {
    fn default() -> (r: Self)
        ensures
            r == WidgetState::Normal,
    {
        WidgetState::Normal
    }
}

/// Neutral (button) background for a state.
pub open spec fn neutral_bg_spec(theme: Theme, state: WidgetState) -> Color {
    match state {
        WidgetState::Normal => theme.button_bg,
        WidgetState::Hover => theme.button_bg_hover,
        WidgetState::Pressed => theme.button_bg_pressed,
        WidgetState::Disabled => theme.button_bg_disabled,
    }
}

/// Accent-filled background for a state; a disabled accent control reads
/// as a greyed neutral surface.
pub open spec fn accent_bg_spec(theme: Theme, state: WidgetState) -> Color {
    match state {
        WidgetState::Normal => theme.accent,
        WidgetState::Hover => theme.accent_hover,
        WidgetState::Pressed => theme.accent_pressed,
        WidgetState::Disabled => theme.button_bg_disabled,
    }
}

/// Foreground text color for a state.
pub open spec fn content_text_spec(theme: Theme, state: WidgetState) -> Color {
    if state == WidgetState::Disabled {
        theme.text_disabled
    } else {
        theme.text_primary
    }
}

/// Border color for a state (never the selected border).
pub open spec fn border_spec(theme: Theme, state: WidgetState) -> Color {
    if state == WidgetState::Disabled {
        theme.border_subtle
    } else {
        theme.input_border
    }
}

/// The background, text and border colors of a control in one state.
#[derive(Debug, Clone, Copy, PartialEq, Eq, Structural)]
pub struct WidgetStateColors {
    /// Neutral (button-like) background fill.
    pub background: Color,
    /// Foreground text / content color.
    pub text: Color,
    /// Border / outline color.
    pub border: Color,
}

impl WidgetStateColors {
    /// The three neutral-surface colors for `state`, the same as reading
    /// `neutral_bg`, `content_text` and `border` one by one.
    pub fn resolve(theme: &Theme, state: WidgetState) -> (r: Self)
        ensures
            r.background == neutral_bg_spec(*theme, state),
            r.text == content_text_spec(*theme, state),
            r.border == border_spec(*theme, state),
    {
        WidgetStateColors {
            background: Self::neutral_bg(theme, state),
            text: Self::content_text(theme, state),
            border: Self::border(theme, state),
        }
    }

    /// Neutral (button) background for `state`.
    pub fn neutral_bg(theme: &Theme, state: WidgetState) -> (r: Color)
        ensures
            r == neutral_bg_spec(*theme, state),
    {
        match state {
            WidgetState::Normal => theme.button_bg,
            WidgetState::Hover => theme.button_bg_hover,
            WidgetState::Pressed => theme.button_bg_pressed,
            WidgetState::Disabled => theme.button_bg_disabled,
        }
    }

    /// Accent-filled background for `state`.
    pub fn accent_bg(theme: &Theme, state: WidgetState) -> (r: Color)
        ensures
            r == accent_bg_spec(*theme, state),
    {
        match state {
            WidgetState::Normal => theme.accent,
            WidgetState::Hover => theme.accent_hover,
            WidgetState::Pressed => theme.accent_pressed,
            WidgetState::Disabled => theme.button_bg_disabled,
        }
    }

    /// Foreground text color for `state`.
    pub fn content_text(theme: &Theme, state: WidgetState) -> (r: Color)
        ensures
            r == content_text_spec(*theme, state),
    {
        theme.interactive_text(state.is_disabled())
    }

    /// Border color for `state`.
    pub fn border(theme: &Theme, state: WidgetState) -> (r: Color)
        ensures
            r == border_spec(*theme, state),
    {
        theme.interactive_border(state.is_disabled(), false)
    }

    /// Focus-ring color.
    pub fn focus_ring(theme: &Theme) -> (r: Color)
        ensures
            r == theme.input_border_focus,
    {
        theme.input_border_focus
    }
}

} // verus!
