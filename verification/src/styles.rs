//! Style and placement options of the progress bar, slider, split pane and
//! toast widgets.
use vstd::prelude::*;

verus! {

/// Progress bar visual style.
#[derive(Debug, Clone, Copy, PartialEq, Eq, Structural)]
pub enum ProgressStyle {
    /// Horizontal bar.
    Bar,
    /// Circular indicator.
    Circular,
    /// Animated indeterminate progress.
    Indeterminate,
}

/// Slider orientation.
#[derive(Debug, Clone, Copy, PartialEq, Eq, Structural)]
pub enum Orientation {
    /// Left-to-right slider.
    Horizontal,
    /// Bottom-to-top slider.
    Vertical,
}

/// Orientation of a split.
#[derive(Debug, Clone, Copy, PartialEq, Eq, Structural)]
pub enum SplitOrientation {
    /// Side-by-side panes (the divider is vertical).
    Horizontal,
    /// Stacked panes (the divider is horizontal).
    Vertical,
}

/// One of the two panes of a split.
#[derive(Debug, Clone, Copy, PartialEq, Eq, Structural)]
pub enum PaneId {
    /// The first (left or top) pane.
    First,
    /// The second (right or bottom) pane.
    Second,
}

/// Toast severity level.
#[derive(Debug, Clone, Copy, PartialEq, Eq, Structural)]
pub enum ToastLevel {
    /// Informational message.
    Info,
    /// Success or positive feedback.
    Success,
    /// Warning.
    Warning,
    /// Error or failure.
    Error,
}

/// Screen corner where toasts stack.
#[derive(Debug, Clone, Copy, PartialEq, Eq, Structural)]
pub enum ToastPosition {
    /// Top-right corner.
    TopRight,
    /// Top-left corner.
    TopLeft,
    /// Bottom-right corner.
    BottomRight,
    /// Bottom-left corner.
    BottomLeft,
}

} // verus!
