//! Themes: the palette, font sizes, spacing and corner radii widgets are
//! drawn with, and the colors picked for interactive states.
use crate::color::Color;
use vstd::prelude::*;

verus! {

/// Direction text runs in.
#[derive(Debug, Clone, Copy, PartialEq, Eq, Structural)]
pub enum TextDirection {
    /// Left to right.
    Ltr,
    /// Right to left.
    Rtl,
    /// Decided by the content.
    Auto,
}

impl TextDirection {
    /// Whether the direction is right to left.
    pub fn is_rtl(self) -> (r: bool)
        ensures
            r == (self == TextDirection::Rtl),
    {
        match self {
            TextDirection::Rtl => true,
            _ => false,
        }
    }
}

/// A complete visual theme.
#[derive(Debug, Clone, Copy)]
pub struct Theme {
    /// Main background color.
    pub background: Color,
    /// Surface/panel background color.
    pub surface: Color,
    /// Variant surface color for depth.
    pub surface_variant: Color,
    /// Overlay/modal backdrop color.
    pub overlay: Color,
    /// Primary text color.
    pub text_primary: Color,
    /// Secondary/muted text color.
    pub text_secondary: Color,
    /// Disabled text color.
    pub text_disabled: Color,
    /// Text on accent-colored backgrounds.
    pub text_on_accent: Color,
    /// Primary accent color.
    pub accent: Color,
    /// Accent color on hover.
    pub accent_hover: Color,
    /// Accent color when pressed.
    pub accent_pressed: Color,
    /// Subtle/transparent accent.
    pub accent_subtle: Color,
    /// Success/positive color.
    pub success: Color,
    /// Warning/caution color.
    pub warning: Color,
    /// Error/danger color.
    pub error: Color,
    /// Info/neutral color.
    pub info: Color,
    /// Default border color.
    pub border: Color,
    /// Subtle/faint border color.
    pub border_subtle: Color,
    /// Strong/emphasized border color.
    pub border_strong: Color,
    /// Button background color.
    pub button_bg: Color,
    /// Button background on hover.
    pub button_bg_hover: Color,
    /// Button background when pressed.
    pub button_bg_pressed: Color,
    /// Disabled button background.
    pub button_bg_disabled: Color,
    /// Input field background.
    pub input_bg: Color,
    /// Input field border.
    pub input_border: Color,
    /// Input field border when focused.
    pub input_border_focus: Color,
    /// Scrollbar track background.
    pub scrollbar_track: Color,
    /// Scrollbar thumb color.
    pub scrollbar_thumb: Color,
    /// Scrollbar thumb on hover.
    pub scrollbar_thumb_hover: Color,
    /// Toggle track color when off.
    pub toggle_track_off: Color,
    /// Toggle track color when on.
    pub toggle_track_on: Color,
    /// Toggle thumb color.
    pub toggle_thumb: Color,
    /// Slider track (unfilled portion) background.
    pub slider_track: Color,
    /// Slider filled-portion color.
    pub slider_fill: Color,
    /// Slider thumb fill color.
    pub slider_thumb: Color,
    /// Menu bar background (`MenuBar` widget).
    ///
    /// The `menu_*` slots default to the classic Win95 grays the menu
    /// bar widget has always rendered with — in every built-in theme —
    /// so existing apps stay pixel-identical. Skins re-color them via
    /// `[widget_states.menu]`.
    pub menu_bg: Color,
    /// Menu bar bottom border.
    pub menu_border: Color,
    /// Menu bar label text.
    pub menu_text: Color,
    /// Highlight behind an open label / hovered drop-down item.
    pub menu_hover_bg: Color,
    /// Text on the menu hover highlight.
    pub menu_hover_text: Color,
    /// Drop-down panel background.
    pub menu_dropdown_bg: Color,
    /// Drop-down bezel highlight (top/left edge).
    pub menu_dropdown_border_light: Color,
    /// Drop-down bezel shadow (bottom/right edge).
    pub menu_dropdown_border_dark: Color,
    /// Drop-down item text.
    pub menu_item_text: Color,
    /// Disabled drop-down item text.
    pub menu_disabled_text: Color,
    /// Drop-down separator line.
    pub menu_separator: Color,
    /// Tooltip background.
    pub tooltip_bg: Color,
    /// Tooltip text color.
    pub tooltip_text: Color,
    /// Focus ring color override for keyboard-focus indicators.
    ///
    /// `None` means "not themed": `FocusStyle` derives the ring color
    /// from `accent` exactly as it always has. Skins set this via
    /// `[geometry] focus_ring_color`.
    pub focus_ring_color: Option<Color>,
    /// Focus ring stroke width override in pixels (`None` = default).
    pub focus_ring_width: Option<u16>,
    /// Focus ring offset from the widget edge in pixels
    /// (`None` = default).
    pub focus_ring_offset: Option<i32>,
    /// Extra-small font size.
    pub font_size_xs: u16,
    /// Small font size.
    pub font_size_sm: u16,
    /// Medium/default font size.
    pub font_size_md: u16,
    /// Large font size.
    pub font_size_lg: u16,
    /// Extra-large font size.
    pub font_size_xl: u16,
    /// Double extra-large font size.
    pub font_size_xxl: u16,
    /// Extra-small spacing.
    pub spacing_xs: u16,
    /// Small spacing.
    pub spacing_sm: u16,
    /// Medium spacing.
    pub spacing_md: u16,
    /// Large spacing.
    pub spacing_lg: u16,
    /// Extra-large spacing.
    pub spacing_xl: u16,
    /// Small border radius.
    pub border_radius_sm: u16,
    /// Medium border radius.
    pub border_radius_md: u16,
    /// Large border radius.
    pub border_radius_lg: u16,
    /// Extra-large border radius.
    pub border_radius_xl: u16,
    /// Whether to reduce or skip animations for accessibility.
    ///
    /// When `true`, animated widgets should snap to their target state
    /// instead of interpolating over time.
    pub reduced_motion: bool,
    /// Text direction for the UI (LTR, RTL, or Auto).
    ///
    /// When RTL, widgets should mirror their inline layout: text
    /// alignment flips (start = right), and padding-left/right swap.
    pub text_direction: TextDirection,
}

/// The dark theme.
pub open spec fn theme_dark() -> Theme {
    Theme {
        background: Color { r: 18, g: 18, b: 24, a: 255 },
        surface: Color { r: 30, g: 30, b: 40, a: 255 },
        surface_variant: Color { r: 40, g: 40, b: 55, a: 255 },
        overlay: Color { r: 0, g: 0, b: 0, a: 180 },
        text_primary: Color { r: 230, g: 230, b: 240, a: 255 },
        text_secondary: Color { r: 160, g: 160, b: 180, a: 255 },
        text_disabled: Color { r: 100, g: 100, b: 120, a: 255 },
        text_on_accent: Color { r: 255, g: 255, b: 255, a: 255 },
        accent: Color { r: 80, g: 160, b: 255, a: 255 },
        accent_hover: Color { r: 110, g: 180, b: 255, a: 255 },
        accent_pressed: Color { r: 60, g: 130, b: 220, a: 255 },
        accent_subtle: Color { r: 80, g: 160, b: 255, a: 30 },
        success: Color { r: 80, g: 200, b: 120, a: 255 },
        warning: Color { r: 255, g: 180, b: 50, a: 255 },
        error: Color { r: 240, g: 80, b: 80, a: 255 },
        info: Color { r: 80, g: 160, b: 255, a: 255 },
        border: Color { r: 60, g: 60, b: 80, a: 255 },
        border_subtle: Color { r: 45, g: 45, b: 60, a: 255 },
        border_strong: Color { r: 80, g: 160, b: 255, a: 255 },
        button_bg: Color { r: 50, g: 50, b: 70, a: 255 },
        button_bg_hover: Color { r: 65, g: 65, b: 90, a: 255 },
        button_bg_pressed: Color { r: 40, g: 40, b: 55, a: 255 },
        button_bg_disabled: Color { r: 35, g: 35, b: 45, a: 255 },
        input_bg: Color { r: 25, g: 25, b: 35, a: 255 },
        input_border: Color { r: 60, g: 60, b: 80, a: 255 },
        input_border_focus: Color { r: 80, g: 160, b: 255, a: 255 },
        scrollbar_track: Color { r: 255, g: 255, b: 255, a: 10 },
        scrollbar_thumb: Color { r: 255, g: 255, b: 255, a: 40 },
        scrollbar_thumb_hover: Color { r: 255, g: 255, b: 255, a: 80 },
        toggle_track_off: Color { r: 255, g: 255, b: 255, a: 10 },
        toggle_track_on: Color { r: 80, g: 160, b: 255, a: 255 },
        toggle_thumb: Color { r: 255, g: 255, b: 255, a: 255 },
        slider_track: Color { r: 25, g: 25, b: 35, a: 255 },
        slider_fill: Color { r: 80, g: 160, b: 255, a: 255 },
        slider_thumb: Color { r: 30, g: 30, b: 40, a: 255 },
        menu_bg: Color { r: 240, g: 240, b: 240, a: 255 },
        menu_border: Color { r: 180, g: 180, b: 180, a: 255 },
        menu_text: Color { r: 30, g: 30, b: 30, a: 255 },
        menu_hover_bg: Color { r: 49, g: 106, b: 197, a: 255 },
        menu_hover_text: Color { r: 255, g: 255, b: 255, a: 255 },
        menu_dropdown_bg: Color { r: 236, g: 236, b: 236, a: 255 },
        menu_dropdown_border_light: Color { r: 255, g: 255, b: 255, a: 255 },
        menu_dropdown_border_dark: Color { r: 105, g: 105, b: 105, a: 255 },
        menu_item_text: Color { r: 20, g: 20, b: 20, a: 255 },
        menu_disabled_text: Color { r: 150, g: 150, b: 150, a: 255 },
        menu_separator: Color { r: 170, g: 170, b: 170, a: 255 },
        tooltip_bg: Color { r: 50, g: 50, b: 65, a: 255 },
        tooltip_text: Color { r: 220, g: 220, b: 230, a: 255 },
        focus_ring_color: None,
        focus_ring_width: None,
        focus_ring_offset: None,
        font_size_xs: 8,
        font_size_sm: 8,
        font_size_md: 8,
        font_size_lg: 16,
        font_size_xl: 16,
        font_size_xxl: 24,
        spacing_xs: 2,
        spacing_sm: 4,
        spacing_md: 8,
        spacing_lg: 12,
        spacing_xl: 16,
        border_radius_sm: 2,
        border_radius_md: 4,
        border_radius_lg: 8,
        border_radius_xl: 12,
        reduced_motion: false,
        text_direction: TextDirection::Ltr,
    }
}

/// The light theme.
pub open spec fn theme_light() -> Theme {
    Theme {
        background: Color { r: 245, g: 245, b: 250, a: 255 },
        surface: Color { r: 255, g: 255, b: 255, a: 255 },
        surface_variant: Color { r: 235, g: 235, b: 240, a: 255 },
        overlay: Color { r: 0, g: 0, b: 0, a: 120 },
        text_primary: Color { r: 20, g: 20, b: 30, a: 255 },
        text_secondary: Color { r: 100, g: 100, b: 120, a: 255 },
        text_disabled: Color { r: 170, g: 170, b: 180, a: 255 },
        text_on_accent: Color { r: 255, g: 255, b: 255, a: 255 },
        accent: Color { r: 50, g: 120, b: 220, a: 255 },
        accent_hover: Color { r: 70, g: 140, b: 240, a: 255 },
        accent_pressed: Color { r: 40, g: 100, b: 190, a: 255 },
        accent_subtle: Color { r: 50, g: 120, b: 220, a: 20 },
        success: Color { r: 50, g: 170, b: 90, a: 255 },
        warning: Color { r: 220, g: 150, b: 30, a: 255 },
        error: Color { r: 210, g: 60, b: 60, a: 255 },
        info: Color { r: 50, g: 120, b: 220, a: 255 },
        border: Color { r: 210, g: 210, b: 220, a: 255 },
        border_subtle: Color { r: 230, g: 230, b: 235, a: 255 },
        border_strong: Color { r: 50, g: 120, b: 220, a: 255 },
        button_bg: Color { r: 230, g: 230, b: 240, a: 255 },
        button_bg_hover: Color { r: 220, g: 220, b: 230, a: 255 },
        button_bg_pressed: Color { r: 200, g: 200, b: 215, a: 255 },
        button_bg_disabled: Color { r: 240, g: 240, b: 245, a: 255 },
        input_bg: Color { r: 255, g: 255, b: 255, a: 255 },
        input_border: Color { r: 200, g: 200, b: 210, a: 255 },
        input_border_focus: Color { r: 50, g: 120, b: 220, a: 255 },
        scrollbar_track: Color { r: 0, g: 0, b: 0, a: 10 },
        scrollbar_thumb: Color { r: 0, g: 0, b: 0, a: 30 },
        scrollbar_thumb_hover: Color { r: 0, g: 0, b: 0, a: 60 },
        toggle_track_off: Color { r: 0, g: 0, b: 0, a: 10 },
        toggle_track_on: Color { r: 50, g: 120, b: 220, a: 255 },
        toggle_thumb: Color { r: 255, g: 255, b: 255, a: 255 },
        slider_track: Color { r: 255, g: 255, b: 255, a: 255 },
        slider_fill: Color { r: 50, g: 120, b: 220, a: 255 },
        slider_thumb: Color { r: 255, g: 255, b: 255, a: 255 },
        menu_bg: Color { r: 240, g: 240, b: 240, a: 255 },
        menu_border: Color { r: 180, g: 180, b: 180, a: 255 },
        menu_text: Color { r: 30, g: 30, b: 30, a: 255 },
        menu_hover_bg: Color { r: 49, g: 106, b: 197, a: 255 },
        menu_hover_text: Color { r: 255, g: 255, b: 255, a: 255 },
        menu_dropdown_bg: Color { r: 236, g: 236, b: 236, a: 255 },
        menu_dropdown_border_light: Color { r: 255, g: 255, b: 255, a: 255 },
        menu_dropdown_border_dark: Color { r: 105, g: 105, b: 105, a: 255 },
        menu_item_text: Color { r: 20, g: 20, b: 20, a: 255 },
        menu_disabled_text: Color { r: 150, g: 150, b: 150, a: 255 },
        menu_separator: Color { r: 170, g: 170, b: 170, a: 255 },
        tooltip_bg: Color { r: 40, g: 40, b: 50, a: 255 },
        tooltip_text: Color { r: 240, g: 240, b: 245, a: 255 },
        focus_ring_color: None,
        focus_ring_width: None,
        focus_ring_offset: None,
        font_size_xs: 8,
        font_size_sm: 8,
        font_size_md: 8,
        font_size_lg: 16,
        font_size_xl: 16,
        font_size_xxl: 24,
        spacing_xs: 2,
        spacing_sm: 4,
        spacing_md: 8,
        spacing_lg: 12,
        spacing_xl: 16,
        border_radius_sm: 2,
        border_radius_md: 4,
        border_radius_lg: 8,
        border_radius_xl: 12,
        reduced_motion: false,
        text_direction: TextDirection::Ltr,
    }
}

/// The high-contrast theme: pure black and white, cyan accent, square corners.
pub open spec fn theme_high_contrast() -> Theme {
    Theme {
        background: Color { r: 0, g: 0, b: 0, a: 255 },
        surface: Color { r: 0, g: 0, b: 0, a: 255 },
        surface_variant: Color { r: 20, g: 20, b: 20, a: 255 },
        overlay: Color { r: 0, g: 0, b: 0, a: 220 },
        text_primary: Color { r: 255, g: 255, b: 255, a: 255 },
        text_secondary: Color { r: 255, g: 255, b: 0, a: 255 },
        text_disabled: Color { r: 128, g: 128, b: 128, a: 255 },
        text_on_accent: Color { r: 0, g: 0, b: 0, a: 255 },
        accent: Color { r: 0, g: 255, b: 255, a: 255 },
        accent_hover: Color { r: 100, g: 255, b: 255, a: 255 },
        accent_pressed: Color { r: 0, g: 200, b: 200, a: 255 },
        accent_subtle: Color { r: 0, g: 255, b: 255, a: 50 },
        success: Color { r: 0, g: 255, b: 0, a: 255 },
        warning: Color { r: 255, g: 255, b: 0, a: 255 },
        error: Color { r: 255, g: 0, b: 0, a: 255 },
        info: Color { r: 0, g: 255, b: 255, a: 255 },
        border: Color { r: 255, g: 255, b: 255, a: 255 },
        border_subtle: Color { r: 200, g: 200, b: 200, a: 255 },
        border_strong: Color { r: 0, g: 255, b: 255, a: 255 },
        button_bg: Color { r: 40, g: 40, b: 40, a: 255 },
        button_bg_hover: Color { r: 60, g: 60, b: 60, a: 255 },
        button_bg_pressed: Color { r: 20, g: 20, b: 20, a: 255 },
        button_bg_disabled: Color { r: 30, g: 30, b: 30, a: 255 },
        input_bg: Color { r: 0, g: 0, b: 0, a: 255 },
        input_border: Color { r: 255, g: 255, b: 255, a: 255 },
        input_border_focus: Color { r: 0, g: 255, b: 255, a: 255 },
        scrollbar_track: Color { r: 255, g: 255, b: 255, a: 30 },
        scrollbar_thumb: Color { r: 255, g: 255, b: 255, a: 120 },
        scrollbar_thumb_hover: Color { r: 255, g: 255, b: 255, a: 200 },
        toggle_track_off: Color { r: 255, g: 255, b: 255, a: 30 },
        toggle_track_on: Color { r: 0, g: 255, b: 255, a: 255 },
        toggle_thumb: Color { r: 0, g: 0, b: 0, a: 255 },
        slider_track: Color { r: 0, g: 0, b: 0, a: 255 },
        slider_fill: Color { r: 0, g: 255, b: 255, a: 255 },
        slider_thumb: Color { r: 0, g: 0, b: 0, a: 255 },
        menu_bg: Color { r: 240, g: 240, b: 240, a: 255 },
        menu_border: Color { r: 180, g: 180, b: 180, a: 255 },
        menu_text: Color { r: 30, g: 30, b: 30, a: 255 },
        menu_hover_bg: Color { r: 49, g: 106, b: 197, a: 255 },
        menu_hover_text: Color { r: 255, g: 255, b: 255, a: 255 },
        menu_dropdown_bg: Color { r: 236, g: 236, b: 236, a: 255 },
        menu_dropdown_border_light: Color { r: 255, g: 255, b: 255, a: 255 },
        menu_dropdown_border_dark: Color { r: 105, g: 105, b: 105, a: 255 },
        menu_item_text: Color { r: 20, g: 20, b: 20, a: 255 },
        menu_disabled_text: Color { r: 150, g: 150, b: 150, a: 255 },
        menu_separator: Color { r: 170, g: 170, b: 170, a: 255 },
        tooltip_bg: Color { r: 0, g: 0, b: 0, a: 255 },
        tooltip_text: Color { r: 255, g: 255, b: 255, a: 255 },
        focus_ring_color: None,
        focus_ring_width: None,
        focus_ring_offset: None,
        font_size_xs: 8,
        font_size_sm: 8,
        font_size_md: 8,
        font_size_lg: 16,
        font_size_xl: 16,
        font_size_xxl: 24,
        spacing_xs: 2,
        spacing_sm: 4,
        spacing_md: 8,
        spacing_lg: 12,
        spacing_xl: 16,
        border_radius_sm: 0,
        border_radius_md: 0,
        border_radius_lg: 0,
        border_radius_xl: 0,
        reduced_motion: false,
        text_direction: TextDirection::Ltr,
    }
}

/// The theme for deuteranopia: blue success, orange warning, magenta error, cyan info.
pub open spec fn theme_colorblind() -> Theme {
    Theme {
        background: Color { r: 18, g: 18, b: 24, a: 255 },
        surface: Color { r: 30, g: 30, b: 40, a: 255 },
        surface_variant: Color { r: 40, g: 40, b: 55, a: 255 },
        overlay: Color { r: 0, g: 0, b: 0, a: 180 },
        text_primary: Color { r: 230, g: 230, b: 240, a: 255 },
        text_secondary: Color { r: 160, g: 160, b: 180, a: 255 },
        text_disabled: Color { r: 100, g: 100, b: 120, a: 255 },
        text_on_accent: Color { r: 255, g: 255, b: 255, a: 255 },
        accent: Color { r: 80, g: 160, b: 255, a: 255 },
        accent_hover: Color { r: 110, g: 180, b: 255, a: 255 },
        accent_pressed: Color { r: 60, g: 130, b: 220, a: 255 },
        accent_subtle: Color { r: 80, g: 160, b: 255, a: 30 },
        success: Color { r: 60, g: 140, b: 255, a: 255 },
        warning: Color { r: 255, g: 160, b: 40, a: 255 },
        error: Color { r: 220, g: 60, b: 220, a: 255 },
        info: Color { r: 0, g: 200, b: 220, a: 255 },
        border: Color { r: 60, g: 60, b: 80, a: 255 },
        border_subtle: Color { r: 45, g: 45, b: 60, a: 255 },
        border_strong: Color { r: 80, g: 160, b: 255, a: 255 },
        button_bg: Color { r: 50, g: 50, b: 70, a: 255 },
        button_bg_hover: Color { r: 65, g: 65, b: 90, a: 255 },
        button_bg_pressed: Color { r: 40, g: 40, b: 55, a: 255 },
        button_bg_disabled: Color { r: 35, g: 35, b: 45, a: 255 },
        input_bg: Color { r: 25, g: 25, b: 35, a: 255 },
        input_border: Color { r: 60, g: 60, b: 80, a: 255 },
        input_border_focus: Color { r: 80, g: 160, b: 255, a: 255 },
        scrollbar_track: Color { r: 255, g: 255, b: 255, a: 10 },
        scrollbar_thumb: Color { r: 255, g: 255, b: 255, a: 40 },
        scrollbar_thumb_hover: Color { r: 255, g: 255, b: 255, a: 80 },
        toggle_track_off: Color { r: 255, g: 255, b: 255, a: 10 },
        toggle_track_on: Color { r: 80, g: 160, b: 255, a: 255 },
        toggle_thumb: Color { r: 255, g: 255, b: 255, a: 255 },
        slider_track: Color { r: 25, g: 25, b: 35, a: 255 },
        slider_fill: Color { r: 80, g: 160, b: 255, a: 255 },
        slider_thumb: Color { r: 30, g: 30, b: 40, a: 255 },
        menu_bg: Color { r: 240, g: 240, b: 240, a: 255 },
        menu_border: Color { r: 180, g: 180, b: 180, a: 255 },
        menu_text: Color { r: 30, g: 30, b: 30, a: 255 },
        menu_hover_bg: Color { r: 49, g: 106, b: 197, a: 255 },
        menu_hover_text: Color { r: 255, g: 255, b: 255, a: 255 },
        menu_dropdown_bg: Color { r: 236, g: 236, b: 236, a: 255 },
        menu_dropdown_border_light: Color { r: 255, g: 255, b: 255, a: 255 },
        menu_dropdown_border_dark: Color { r: 105, g: 105, b: 105, a: 255 },
        menu_item_text: Color { r: 20, g: 20, b: 20, a: 255 },
        menu_disabled_text: Color { r: 150, g: 150, b: 150, a: 255 },
        menu_separator: Color { r: 170, g: 170, b: 170, a: 255 },
        tooltip_bg: Color { r: 50, g: 50, b: 65, a: 255 },
        tooltip_text: Color { r: 220, g: 220, b: 230, a: 255 },
        focus_ring_color: None,
        focus_ring_width: None,
        focus_ring_offset: None,
        font_size_xs: 8,
        font_size_sm: 8,
        font_size_md: 8,
        font_size_lg: 16,
        font_size_xl: 16,
        font_size_xxl: 24,
        spacing_xs: 2,
        spacing_sm: 4,
        spacing_md: 8,
        spacing_lg: 12,
        spacing_xl: 16,
        border_radius_sm: 2,
        border_radius_md: 4,
        border_radius_lg: 8,
        border_radius_xl: 12,
        reduced_motion: false,
        text_direction: TextDirection::Ltr,
    }
}

/// The classic theme: the dark theme with an orange accent and a brighter green.
pub open spec fn theme_classic() -> Theme {
    Theme {
        accent: Color { r: 255, g: 140, b: 30, a: 255 },
        accent_hover: Color { r: 255, g: 165, b: 60, a: 255 },
        accent_pressed: Color { r: 220, g: 120, b: 20, a: 255 },
        accent_subtle: Color { r: 255, g: 140, b: 30, a: 30 },
        border_strong: Color { r: 255, g: 140, b: 30, a: 255 },
        success: Color { r: 100, g: 220, b: 80, a: 255 },
        toggle_track_on: Color { r: 255, g: 140, b: 30, a: 255 },
        slider_fill: Color { r: 255, g: 140, b: 30, a: 255 },
        ..theme_dark()
    }
}

/// The theme for protanopia: the dark theme with cyan, yellow, blue-violet and light-blue status colors.
pub open spec fn theme_protanopia() -> Theme {
    Theme {
        success: Color { r: 0, g: 200, b: 200, a: 255 },
        warning: Color { r: 255, g: 220, b: 50, a: 255 },
        error: Color { r: 130, g: 80, b: 220, a: 255 },
        info: Color { r: 100, g: 180, b: 255, a: 255 },
        ..theme_dark()
    }
}

/// The theme for tritanopia: the dark theme with teal, red-orange, deep-red and dark-cyan status colors.
pub open spec fn theme_tritanopia() -> Theme {
    Theme {
        success: Color { r: 0, g: 180, b: 160, a: 255 },
        warning: Color { r: 255, g: 120, b: 40, a: 255 },
        error: Color { r: 200, g: 30, b: 30, a: 255 },
        info: Color { r: 0, g: 160, b: 200, a: 255 },
        ..theme_dark()
    }
}

/// The built-in themes: dark, light, classic, high contrast and the
/// deuteranopia, protanopia and tritanopia variants.
pub open spec fn builtin_themes() -> Seq<Theme> {
    seq![
        theme_dark(),
        theme_light(),
        theme_classic(),
        theme_high_contrast(),
        theme_colorblind(),
        theme_protanopia(),
        theme_tritanopia(),
    ]
}

/// What every built-in theme keeps: the classic grey menu colors, text
/// sizes 8, 8, 8, 16, 16 and 24, spacing and corner radii that grow with
/// their size, reduced motion off, left-to-right text, no focus-ring
/// overrides, and four different status colors.
pub open spec fn builtin_invariants(t: Theme) -> bool {
    &&& t.menu_bg == (Color { r: 240, g: 240, b: 240, a: 255 })
    &&& t.menu_border == (Color { r: 180, g: 180, b: 180, a: 255 })
    &&& t.menu_text == (Color { r: 30, g: 30, b: 30, a: 255 })
    &&& t.menu_hover_bg == (Color { r: 49, g: 106, b: 197, a: 255 })
    &&& t.menu_hover_text == (Color { r: 255, g: 255, b: 255, a: 255 })
    &&& t.menu_dropdown_bg == (Color { r: 236, g: 236, b: 236, a: 255 })
    &&& t.menu_dropdown_border_light == (Color { r: 255, g: 255, b: 255, a: 255 })
    &&& t.menu_dropdown_border_dark == (Color { r: 105, g: 105, b: 105, a: 255 })
    &&& t.menu_item_text == (Color { r: 20, g: 20, b: 20, a: 255 })
    &&& t.menu_disabled_text == (Color { r: 150, g: 150, b: 150, a: 255 })
    &&& t.menu_separator == (Color { r: 170, g: 170, b: 170, a: 255 })
    &&& t.font_size_xs == 8 && t.font_size_sm == 8 && t.font_size_md == 8
    &&& t.font_size_lg == 16 && t.font_size_xl == 16 && t.font_size_xxl == 24
    &&& t.spacing_xs <= t.spacing_sm <= t.spacing_md <= t.spacing_lg <= t.spacing_xl
    &&& t.border_radius_sm <= t.border_radius_md <= t.border_radius_lg <= t.border_radius_xl
    &&& !t.reduced_motion
    &&& t.text_direction == TextDirection::Ltr
    &&& t.focus_ring_color.is_none() && t.focus_ring_width.is_none()
        && t.focus_ring_offset.is_none()
    &&& t.success != t.warning && t.success != t.error && t.warning != t.error
    &&& t.success != t.info
}

/// Every built-in theme keeps the invariants above; the slider follows
/// the accent in all of them, and the color-vision variants keep the dark
/// theme's background, surface and text.
pub proof fn lemma_builtin_themes(i: int)
    requires
        0 <= i < 7,
    ensures
        builtin_invariants(builtin_themes()[i]),
        builtin_themes()[i].slider_fill == builtin_themes()[i].accent,
        i >= 4 ==> {
            &&& builtin_themes()[i].background == theme_dark().background
            &&& builtin_themes()[i].surface == theme_dark().surface
            &&& builtin_themes()[i].text_primary == theme_dark().text_primary
        },
{
}

impl Theme {
    /// Dark theme.
    pub fn dark() -> (r: Theme)
        ensures
            r == theme_dark(),
    {
        Theme {
            background: Color::rgb(18, 18, 24),
            surface: Color::rgb(30, 30, 40),
            surface_variant: Color::rgb(40, 40, 55),
            overlay: Color::rgba(0, 0, 0, 180),
            text_primary: Color::rgb(230, 230, 240),
            text_secondary: Color::rgb(160, 160, 180),
            text_disabled: Color::rgb(100, 100, 120),
            text_on_accent: Color::rgb(255, 255, 255),
            accent: Color::rgb(80, 160, 255),
            accent_hover: Color::rgb(110, 180, 255),
            accent_pressed: Color::rgb(60, 130, 220),
            accent_subtle: Color::rgba(80, 160, 255, 30),
            success: Color::rgb(80, 200, 120),
            warning: Color::rgb(255, 180, 50),
            error: Color::rgb(240, 80, 80),
            info: Color::rgb(80, 160, 255),
            border: Color::rgb(60, 60, 80),
            border_subtle: Color::rgb(45, 45, 60),
            border_strong: Color::rgb(80, 160, 255),
            button_bg: Color::rgb(50, 50, 70),
            button_bg_hover: Color::rgb(65, 65, 90),
            button_bg_pressed: Color::rgb(40, 40, 55),
            button_bg_disabled: Color::rgb(35, 35, 45),
            input_bg: Color::rgb(25, 25, 35),
            input_border: Color::rgb(60, 60, 80),
            input_border_focus: Color::rgb(80, 160, 255),
            scrollbar_track: Color::rgba(255, 255, 255, 10),
            scrollbar_thumb: Color::rgba(255, 255, 255, 40),
            scrollbar_thumb_hover: Color::rgba(255, 255, 255, 80),
            toggle_track_off: Color::rgba(255, 255, 255, 10),
            toggle_track_on: Color::rgb(80, 160, 255),
            toggle_thumb: Color::rgb(255, 255, 255),
            slider_track: Color::rgb(25, 25, 35),
            slider_fill: Color::rgb(80, 160, 255),
            slider_thumb: Color::rgb(30, 30, 40),
            menu_bg: Color::rgb(240, 240, 240),
            menu_border: Color::rgb(180, 180, 180),
            menu_text: Color::rgb(30, 30, 30),
            menu_hover_bg: Color::rgb(49, 106, 197),
            menu_hover_text: Color::rgb(255, 255, 255),
            menu_dropdown_bg: Color::rgb(236, 236, 236),
            menu_dropdown_border_light: Color::rgb(255, 255, 255),
            menu_dropdown_border_dark: Color::rgb(105, 105, 105),
            menu_item_text: Color::rgb(20, 20, 20),
            menu_disabled_text: Color::rgb(150, 150, 150),
            menu_separator: Color::rgb(170, 170, 170),
            tooltip_bg: Color::rgb(50, 50, 65),
            tooltip_text: Color::rgb(220, 220, 230),
            focus_ring_color: None,
            focus_ring_width: None,
            focus_ring_offset: None,
            font_size_xs: 8,
            font_size_sm: 8,
            font_size_md: 8,
            font_size_lg: 16,
            font_size_xl: 16,
            font_size_xxl: 24,
            spacing_xs: 2,
            spacing_sm: 4,
            spacing_md: 8,
            spacing_lg: 12,
            spacing_xl: 16,
            border_radius_sm: 2,
            border_radius_md: 4,
            border_radius_lg: 8,
            border_radius_xl: 12,
            reduced_motion: false,
            text_direction: TextDirection::Ltr,
        }
    }

    /// Light theme.
    pub fn light() -> (r: Theme)
        ensures
            r == theme_light(),
    {
        Theme {
            background: Color::rgb(245, 245, 250),
            surface: Color::rgb(255, 255, 255),
            surface_variant: Color::rgb(235, 235, 240),
            overlay: Color::rgba(0, 0, 0, 120),
            text_primary: Color::rgb(20, 20, 30),
            text_secondary: Color::rgb(100, 100, 120),
            text_disabled: Color::rgb(170, 170, 180),
            text_on_accent: Color::rgb(255, 255, 255),
            accent: Color::rgb(50, 120, 220),
            accent_hover: Color::rgb(70, 140, 240),
            accent_pressed: Color::rgb(40, 100, 190),
            accent_subtle: Color::rgba(50, 120, 220, 20),
            success: Color::rgb(50, 170, 90),
            warning: Color::rgb(220, 150, 30),
            error: Color::rgb(210, 60, 60),
            info: Color::rgb(50, 120, 220),
            border: Color::rgb(210, 210, 220),
            border_subtle: Color::rgb(230, 230, 235),
            border_strong: Color::rgb(50, 120, 220),
            button_bg: Color::rgb(230, 230, 240),
            button_bg_hover: Color::rgb(220, 220, 230),
            button_bg_pressed: Color::rgb(200, 200, 215),
            button_bg_disabled: Color::rgb(240, 240, 245),
            input_bg: Color::rgb(255, 255, 255),
            input_border: Color::rgb(200, 200, 210),
            input_border_focus: Color::rgb(50, 120, 220),
            scrollbar_track: Color::rgba(0, 0, 0, 10),
            scrollbar_thumb: Color::rgba(0, 0, 0, 30),
            scrollbar_thumb_hover: Color::rgba(0, 0, 0, 60),
            toggle_track_off: Color::rgba(0, 0, 0, 10),
            toggle_track_on: Color::rgb(50, 120, 220),
            toggle_thumb: Color::rgb(255, 255, 255),
            slider_track: Color::rgb(255, 255, 255),
            slider_fill: Color::rgb(50, 120, 220),
            slider_thumb: Color::rgb(255, 255, 255),
            menu_bg: Color::rgb(240, 240, 240),
            menu_border: Color::rgb(180, 180, 180),
            menu_text: Color::rgb(30, 30, 30),
            menu_hover_bg: Color::rgb(49, 106, 197),
            menu_hover_text: Color::rgb(255, 255, 255),
            menu_dropdown_bg: Color::rgb(236, 236, 236),
            menu_dropdown_border_light: Color::rgb(255, 255, 255),
            menu_dropdown_border_dark: Color::rgb(105, 105, 105),
            menu_item_text: Color::rgb(20, 20, 20),
            menu_disabled_text: Color::rgb(150, 150, 150),
            menu_separator: Color::rgb(170, 170, 170),
            tooltip_bg: Color::rgb(40, 40, 50),
            tooltip_text: Color::rgb(240, 240, 245),
            focus_ring_color: None,
            focus_ring_width: None,
            focus_ring_offset: None,
            font_size_xs: 8,
            font_size_sm: 8,
            font_size_md: 8,
            font_size_lg: 16,
            font_size_xl: 16,
            font_size_xxl: 24,
            spacing_xs: 2,
            spacing_sm: 4,
            spacing_md: 8,
            spacing_lg: 12,
            spacing_xl: 16,
            border_radius_sm: 2,
            border_radius_md: 4,
            border_radius_lg: 8,
            border_radius_xl: 12,
            reduced_motion: false,
            text_direction: TextDirection::Ltr,
        }
    }

    /// High-contrast theme: pure black and white, cyan accent, square corners.
    pub fn high_contrast() -> (r: Theme)
        ensures
            r == theme_high_contrast(),
    {
        Theme {
            background: Color::rgb(0, 0, 0),
            surface: Color::rgb(0, 0, 0),
            surface_variant: Color::rgb(20, 20, 20),
            overlay: Color::rgba(0, 0, 0, 220),
            text_primary: Color::rgb(255, 255, 255),
            text_secondary: Color::rgb(255, 255, 0),
            text_disabled: Color::rgb(128, 128, 128),
            text_on_accent: Color::rgb(0, 0, 0),
            accent: Color::rgb(0, 255, 255),
            accent_hover: Color::rgb(100, 255, 255),
            accent_pressed: Color::rgb(0, 200, 200),
            accent_subtle: Color::rgba(0, 255, 255, 50),
            success: Color::rgb(0, 255, 0),
            warning: Color::rgb(255, 255, 0),
            error: Color::rgb(255, 0, 0),
            info: Color::rgb(0, 255, 255),
            border: Color::rgb(255, 255, 255),
            border_subtle: Color::rgb(200, 200, 200),
            border_strong: Color::rgb(0, 255, 255),
            button_bg: Color::rgb(40, 40, 40),
            button_bg_hover: Color::rgb(60, 60, 60),
            button_bg_pressed: Color::rgb(20, 20, 20),
            button_bg_disabled: Color::rgb(30, 30, 30),
            input_bg: Color::rgb(0, 0, 0),
            input_border: Color::rgb(255, 255, 255),
            input_border_focus: Color::rgb(0, 255, 255),
            scrollbar_track: Color::rgba(255, 255, 255, 30),
            scrollbar_thumb: Color::rgba(255, 255, 255, 120),
            scrollbar_thumb_hover: Color::rgba(255, 255, 255, 200),
            toggle_track_off: Color::rgba(255, 255, 255, 30),
            toggle_track_on: Color::rgb(0, 255, 255),
            toggle_thumb: Color::rgb(0, 0, 0),
            slider_track: Color::rgb(0, 0, 0),
            slider_fill: Color::rgb(0, 255, 255),
            slider_thumb: Color::rgb(0, 0, 0),
            menu_bg: Color::rgb(240, 240, 240),
            menu_border: Color::rgb(180, 180, 180),
            menu_text: Color::rgb(30, 30, 30),
            menu_hover_bg: Color::rgb(49, 106, 197),
            menu_hover_text: Color::rgb(255, 255, 255),
            menu_dropdown_bg: Color::rgb(236, 236, 236),
            menu_dropdown_border_light: Color::rgb(255, 255, 255),
            menu_dropdown_border_dark: Color::rgb(105, 105, 105),
            menu_item_text: Color::rgb(20, 20, 20),
            menu_disabled_text: Color::rgb(150, 150, 150),
            menu_separator: Color::rgb(170, 170, 170),
            tooltip_bg: Color::rgb(0, 0, 0),
            tooltip_text: Color::rgb(255, 255, 255),
            focus_ring_color: None,
            focus_ring_width: None,
            focus_ring_offset: None,
            font_size_xs: 8,
            font_size_sm: 8,
            font_size_md: 8,
            font_size_lg: 16,
            font_size_xl: 16,
            font_size_xxl: 24,
            spacing_xs: 2,
            spacing_sm: 4,
            spacing_md: 8,
            spacing_lg: 12,
            spacing_xl: 16,
            border_radius_sm: 0,
            border_radius_md: 0,
            border_radius_lg: 0,
            border_radius_xl: 0,
            reduced_motion: false,
            text_direction: TextDirection::Ltr,
        }
    }

    /// Theme for deuteranopia: blue success, orange warning, magenta error, cyan info.
    pub fn colorblind() -> (r: Theme)
        ensures
            r == theme_colorblind(),
    {
        Theme {
            background: Color::rgb(18, 18, 24),
            surface: Color::rgb(30, 30, 40),
            surface_variant: Color::rgb(40, 40, 55),
            overlay: Color::rgba(0, 0, 0, 180),
            text_primary: Color::rgb(230, 230, 240),
            text_secondary: Color::rgb(160, 160, 180),
            text_disabled: Color::rgb(100, 100, 120),
            text_on_accent: Color::rgb(255, 255, 255),
            accent: Color::rgb(80, 160, 255),
            accent_hover: Color::rgb(110, 180, 255),
            accent_pressed: Color::rgb(60, 130, 220),
            accent_subtle: Color::rgba(80, 160, 255, 30),
            success: Color::rgb(60, 140, 255),
            warning: Color::rgb(255, 160, 40),
            error: Color::rgb(220, 60, 220),
            info: Color::rgb(0, 200, 220),
            border: Color::rgb(60, 60, 80),
            border_subtle: Color::rgb(45, 45, 60),
            border_strong: Color::rgb(80, 160, 255),
            button_bg: Color::rgb(50, 50, 70),
            button_bg_hover: Color::rgb(65, 65, 90),
            button_bg_pressed: Color::rgb(40, 40, 55),
            button_bg_disabled: Color::rgb(35, 35, 45),
            input_bg: Color::rgb(25, 25, 35),
            input_border: Color::rgb(60, 60, 80),
            input_border_focus: Color::rgb(80, 160, 255),
            scrollbar_track: Color::rgba(255, 255, 255, 10),
            scrollbar_thumb: Color::rgba(255, 255, 255, 40),
            scrollbar_thumb_hover: Color::rgba(255, 255, 255, 80),
            toggle_track_off: Color::rgba(255, 255, 255, 10),
            toggle_track_on: Color::rgb(80, 160, 255),
            toggle_thumb: Color::rgb(255, 255, 255),
            slider_track: Color::rgb(25, 25, 35),
            slider_fill: Color::rgb(80, 160, 255),
            slider_thumb: Color::rgb(30, 30, 40),
            menu_bg: Color::rgb(240, 240, 240),
            menu_border: Color::rgb(180, 180, 180),
            menu_text: Color::rgb(30, 30, 30),
            menu_hover_bg: Color::rgb(49, 106, 197),
            menu_hover_text: Color::rgb(255, 255, 255),
            menu_dropdown_bg: Color::rgb(236, 236, 236),
            menu_dropdown_border_light: Color::rgb(255, 255, 255),
            menu_dropdown_border_dark: Color::rgb(105, 105, 105),
            menu_item_text: Color::rgb(20, 20, 20),
            menu_disabled_text: Color::rgb(150, 150, 150),
            menu_separator: Color::rgb(170, 170, 170),
            tooltip_bg: Color::rgb(50, 50, 65),
            tooltip_text: Color::rgb(220, 220, 230),
            focus_ring_color: None,
            focus_ring_width: None,
            focus_ring_offset: None,
            font_size_xs: 8,
            font_size_sm: 8,
            font_size_md: 8,
            font_size_lg: 16,
            font_size_xl: 16,
            font_size_xxl: 24,
            spacing_xs: 2,
            spacing_sm: 4,
            spacing_md: 8,
            spacing_lg: 12,
            spacing_xl: 16,
            border_radius_sm: 2,
            border_radius_md: 4,
            border_radius_lg: 8,
            border_radius_xl: 12,
            reduced_motion: false,
            text_direction: TextDirection::Ltr,
        }
    }

    /// Classic theme: the dark theme with an orange accent and a brighter green.
    pub fn classic() -> (r: Theme)
        ensures
            r == theme_classic(),
    {
        let mut t = Theme::dark();
        t.accent = Color::rgb(255, 140, 30);
        t.accent_hover = Color::rgb(255, 165, 60);
        t.accent_pressed = Color::rgb(220, 120, 20);
        t.accent_subtle = Color::rgba(255, 140, 30, 30);
        t.border_strong = Color::rgb(255, 140, 30);
        t.success = Color::rgb(100, 220, 80);
        t.toggle_track_on = t.accent;
        t.slider_fill = t.accent;
        t
    }

    /// Theme for protanopia: the dark theme with cyan, yellow, blue-violet and light-blue status colors.
    pub fn protanopia() -> (r: Theme)
        ensures
            r == theme_protanopia(),
    {
        let mut t = Theme::dark();
        t.success = Color::rgb(0, 200, 200);
        t.warning = Color::rgb(255, 220, 50);
        t.error = Color::rgb(130, 80, 220);
        t.info = Color::rgb(100, 180, 255);
        t
    }

    /// Theme for tritanopia: the dark theme with teal, red-orange, deep-red and dark-cyan status colors.
    pub fn tritanopia() -> (r: Theme)
        ensures
            r == theme_tritanopia(),
    {
        let mut t = Theme::dark();
        t.success = Color::rgb(0, 180, 160);
        t.warning = Color::rgb(255, 120, 40);
        t.error = Color::rgb(200, 30, 30);
        t.info = Color::rgb(0, 160, 200);
        t
    }

    /// Border of an interactive control: subtle when disabled, the accent
    /// when selected, the input border otherwise.
    pub fn interactive_border(&self, disabled: bool, selected: bool) -> (r: Color)
        ensures
            r == if disabled {
                self.border_subtle
            } else if selected {
                self.accent
            } else {
                self.input_border
            },
    {
        if disabled {
            self.border_subtle
        } else if selected {
            self.accent
        } else {
            self.input_border
        }
    }

    /// The accent, or the disabled text color when disabled.
    pub fn interactive_accent(&self, disabled: bool) -> (r: Color)
        ensures
            r == if disabled {
                self.text_disabled
            } else {
                self.accent
            },
    {
        if disabled {
            self.text_disabled
        } else {
            self.accent
        }
    }

    /// The primary text color, or the disabled one when disabled.
    pub fn interactive_text(&self, disabled: bool) -> (r: Color)
        ensures
            r == if disabled {
                self.text_disabled
            } else {
                self.text_primary
            },
    {
        if disabled {
            self.text_disabled
        } else {
            self.text_primary
        }
    }

    /// Whether text runs right to left.
    pub fn is_rtl(&self) -> (r: bool)
        ensures
            r == (self.text_direction == TextDirection::Rtl),
    {
        self.text_direction.is_rtl()
    }

    /// Physical (left, right) padding for logical inline-start and
    /// inline-end padding: swapped when text runs right to left.
    pub fn resolve_inline_padding(&self, inline_start: u16, inline_end: u16) -> (r: (u16, u16))
        ensures
            r == if self.text_direction == TextDirection::Rtl {
                (inline_end, inline_start)
            } else {
                (inline_start, inline_end)
            },
    {
        if self.is_rtl() {
            (inline_end, inline_start)
        } else {
            (inline_start, inline_end)
        }
    }
}

} // verus!
