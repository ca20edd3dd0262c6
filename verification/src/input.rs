//! Input events as delivered to widgets.
use vstd::prelude::*;

verus! {

/// A physical or logical button.
#[derive(Debug, Clone, Copy, PartialEq, Eq, Structural)]
pub enum Button {
    /// D-pad / arrow up.
    Up,
    /// D-pad / arrow down.
    Down,
    /// D-pad / arrow left.
    Left,
    /// D-pad / arrow right.
    Right,
    /// Confirm (Enter / Cross).
    Confirm,
    /// Cancel (Escape / Circle).
    Cancel,
    /// Start.
    Start,
    /// Select (acts as Shift).
    Select,
}

/// An input event.
#[derive(Debug, Clone, Copy, PartialEq, Eq, Structural)]
pub enum InputEvent {
    /// A button went down.
    ButtonPress(Button),
    /// A button went up.
    ButtonRelease(Button),
    /// A character was typed.
    TextInput(char),
    /// The pointer clicked at a position.
    PointerClick {
        /// X coordinate.
        x: i32,
        /// Y coordinate.
        y: i32,
    },
    /// The pointer moved to a position.
    CursorMove {
        /// X coordinate.
        x: i32,
        /// Y coordinate.
        y: i32,
    },
}

} // verus!
