use oasis_ui::states::{WidgetState, WidgetStateColors};
use oasis_ui::theme::Theme;

#[test]
fn from_flags_priority() {
    assert_eq!(
        WidgetState::from_flags(false, false, false),
        WidgetState::Normal
    );
    assert_eq!(
        WidgetState::from_flags(true, false, false),
        WidgetState::Hover
    );
    assert_eq!(
        WidgetState::from_flags(false, true, false),
        WidgetState::Pressed
    );
    // Pressed beats hover.
    assert_eq!(
        WidgetState::from_flags(true, true, false),
        WidgetState::Pressed
    );
    // Disabled beats everything.
    assert_eq!(
        WidgetState::from_flags(true, true, true),
        WidgetState::Disabled
    );
}

#[test]
fn default_is_normal() {
    assert_eq!(WidgetState::default(), WidgetState::Normal);
}

#[test]
fn is_disabled_flag() {
    assert!(WidgetState::Disabled.is_disabled());
    assert!(!WidgetState::Hover.is_disabled());
}


fn all_themes() -> Vec<Theme> {
    vec![
        Theme::dark(),
        Theme::light(),
        Theme::classic(),
        Theme::high_contrast(),
        Theme::colorblind(),
        Theme::protanopia(),
        Theme::tritanopia(),
    ]
}

#[test]
fn neutral_bg_matches_theme_fields_all_themes() {
    for t in all_themes() {
        assert_eq!(
            WidgetStateColors::neutral_bg(&t, WidgetState::Normal),
            t.button_bg
        );
        assert_eq!(
            WidgetStateColors::neutral_bg(&t, WidgetState::Hover),
            t.button_bg_hover
        );
        assert_eq!(
            WidgetStateColors::neutral_bg(&t, WidgetState::Pressed),
            t.button_bg_pressed
        );
        assert_eq!(
            WidgetStateColors::neutral_bg(&t, WidgetState::Disabled),
            t.button_bg_disabled
        );
    }
}

#[test]
fn accent_bg_matches_theme_fields_all_themes() {
    for t in all_themes() {
        assert_eq!(
            WidgetStateColors::accent_bg(&t, WidgetState::Normal),
            t.accent
        );
        assert_eq!(
            WidgetStateColors::accent_bg(&t, WidgetState::Hover),
            t.accent_hover
        );
        assert_eq!(
            WidgetStateColors::accent_bg(&t, WidgetState::Pressed),
            t.accent_pressed
        );
        // Disabled accent falls back to the neutral disabled bg.
        assert_eq!(
            WidgetStateColors::accent_bg(&t, WidgetState::Disabled),
            t.button_bg_disabled
        );
    }
}

#[test]
fn content_text_matches_interactive_text() {
    for t in all_themes() {
        assert_eq!(
            WidgetStateColors::content_text(&t, WidgetState::Normal),
            t.interactive_text(false)
        );
        assert_eq!(
            WidgetStateColors::content_text(&t, WidgetState::Disabled),
            t.interactive_text(true)
        );
        assert_eq!(
            WidgetStateColors::content_text(&t, WidgetState::Normal),
            t.text_primary
        );
        assert_eq!(
            WidgetStateColors::content_text(&t, WidgetState::Disabled),
            t.text_disabled
        );
    }
}

#[test]
fn border_matches_interactive_border() {
    for t in all_themes() {
        assert_eq!(
            WidgetStateColors::border(&t, WidgetState::Normal),
            t.input_border
        );
        assert_eq!(
            WidgetStateColors::border(&t, WidgetState::Disabled),
            t.border_subtle
        );
    }
}

#[test]
fn focus_ring_is_input_border_focus() {
    for t in all_themes() {
        assert_eq!(WidgetStateColors::focus_ring(&t), t.input_border_focus);
    }
}

#[test]
fn resolve_bundles_the_trio() {
    let t = Theme::dark();
    let c = WidgetStateColors::resolve(&t, WidgetState::Hover);
    assert_eq!(c.background, t.button_bg_hover);
    assert_eq!(c.text, t.text_primary);
    assert_eq!(c.border, t.input_border);
}
