use oasis_ui::color::Color;
use oasis_ui::theme::Theme;

fn accent_rgb(t: &Theme) -> (u8, u8, u8) {
    (t.accent.r, t.accent.g, t.accent.b)
}

#[test]
fn dark_has_dark_background() {
    let t = Theme::dark();
    // Background should be dark (low RGB values).
    assert!(t.background.r < 50);
    assert!(t.background.g < 50);
    assert!(t.background.b < 50);
}
#[test]
fn light_has_light_background() {
    let t = Theme::light();
    // Background should be light (high RGB values).
    assert!(t.background.r > 200);
    assert!(t.background.g > 200);
    assert!(t.background.b > 200);
}
#[test]
fn classic_uses_orange_accent() {
    let t = Theme::classic();
    // Classic accent is orange (high red, medium green, low blue).
    assert!(t.accent.r > 200);
    assert!(t.accent.g > 100 && t.accent.g < 200);
    assert!(t.accent.b < 100);
}
#[test]
fn classic_based_on_dark() {
    let dark = Theme::dark();
    let classic = Theme::classic();
    // Classic shares dark's background.
    assert_eq!(dark.background, classic.background);
    assert_eq!(dark.surface, classic.surface);
    // But has different accent.
    assert_ne!(accent_rgb(&dark), accent_rgb(&classic));
}
#[test]
fn high_contrast_pure_black_bg() {
    let t = Theme::high_contrast();
    assert_eq!(t.background, Color::rgb(0, 0, 0));
    assert_eq!(t.surface, Color::rgb(0, 0, 0));
}
#[test]
fn high_contrast_white_text() {
    let t = Theme::high_contrast();
    assert_eq!(t.text_primary, Color::rgb(255, 255, 255));
}
#[test]
fn high_contrast_no_rounded_corners() {
    let t = Theme::high_contrast();
    assert_eq!(t.border_radius_sm, 0);
    assert_eq!(t.border_radius_md, 0);
    assert_eq!(t.border_radius_lg, 0);
    assert_eq!(t.border_radius_xl, 0);
}
#[test]
fn font_sizes_are_ordered() {
    let t = Theme::dark();
    assert!(t.font_size_xs <= t.font_size_sm);
    assert!(t.font_size_sm <= t.font_size_md);
    assert!(t.font_size_md <= t.font_size_lg);
    assert!(t.font_size_lg <= t.font_size_xl);
    assert!(t.font_size_xl <= t.font_size_xxl);
}
#[test]
fn spacing_is_ordered() {
    let t = Theme::dark();
    assert!(t.spacing_xs <= t.spacing_sm);
    assert!(t.spacing_sm <= t.spacing_md);
    assert!(t.spacing_md <= t.spacing_lg);
    assert!(t.spacing_lg <= t.spacing_xl);
}
#[test]
fn border_radius_is_ordered() {
    let t = Theme::dark();
    assert!(t.border_radius_sm <= t.border_radius_md);
    assert!(t.border_radius_md <= t.border_radius_lg);
    assert!(t.border_radius_lg <= t.border_radius_xl);
}
#[test]
fn all_variants_have_consistent_font_sizes() {
    for theme in [
        Theme::dark(),
        Theme::light(),
        Theme::classic(),
        Theme::high_contrast(),
        Theme::colorblind(),
        Theme::protanopia(),
        Theme::tritanopia(),
    ] {
        assert_eq!(theme.font_size_xs, 8);
        assert_eq!(theme.font_size_md, 8);
        assert_eq!(theme.font_size_lg, 16);
    }
}
#[test]
fn default_reduced_motion_is_false() {
    assert!(!Theme::dark().reduced_motion);
    assert!(!Theme::light().reduced_motion);
    assert!(!Theme::classic().reduced_motion);
    assert!(!Theme::high_contrast().reduced_motion);
    assert!(!Theme::colorblind().reduced_motion);
    assert!(!Theme::protanopia().reduced_motion);
    assert!(!Theme::tritanopia().reduced_motion);
}
#[test]
fn reduced_motion_can_be_enabled() {
    let mut t = Theme::dark();
    t.reduced_motion = true;
    assert!(t.reduced_motion);
}
#[test]
fn colorblind_has_distinct_status_colors() {
    let t = Theme::colorblind();
    // All four status colors should be different.
    assert_ne!(t.success, t.warning);
    assert_ne!(t.success, t.error);
    assert_ne!(t.warning, t.error);
    assert_ne!(t.success, t.info);
}
#[test]
fn colorblind_success_is_blue() {
    let t = Theme::colorblind();
    // Success should be blue-dominant (high blue, low-ish red).
    assert!(t.success.b > t.success.r);
    assert!(t.success.b > 200);
}
#[test]
fn colorblind_error_is_magenta() {
    let t = Theme::colorblind();
    // Error should be magenta (high red + high blue, low green).
    assert!(t.error.r > 200);
    assert!(t.error.b > 200);
    assert!(t.error.g < 100);
}
#[test]
fn colorblind_warning_is_orange() {
    let t = Theme::colorblind();
    // Warning should be orange (high red, medium green, low blue).
    assert!(t.warning.r > 200);
    assert!(t.warning.g > 100 && t.warning.g < 200);
    assert!(t.warning.b < 100);
}
#[test]
fn colorblind_shares_dark_base_colors() {
    let dark = Theme::dark();
    let cb = Theme::colorblind();
    assert_eq!(dark.background, cb.background);
    assert_eq!(dark.surface, cb.surface);
    assert_eq!(dark.text_primary, cb.text_primary);
}
#[test]
fn colorblind_has_dark_background() {
    let t = Theme::colorblind();
    assert!(t.background.r < 50);
    assert!(t.background.g < 50);
    assert!(t.background.b < 50);
}
#[test]
fn protanopia_has_distinct_status_colors() {
    let t = Theme::protanopia();
    assert_ne!(t.success, t.warning);
    assert_ne!(t.success, t.error);
    assert_ne!(t.warning, t.error);
    assert_ne!(t.success, t.info);
}
#[test]
fn protanopia_success_is_cyan() {
    let t = Theme::protanopia();
    assert!(t.success.g >= 200);
    assert!(t.success.b >= 200);
    assert!(t.success.r < 50);
}
#[test]
fn protanopia_shares_dark_base() {
    let dark = Theme::dark();
    let p = Theme::protanopia();
    assert_eq!(dark.background, p.background);
    assert_eq!(dark.surface, p.surface);
    assert_eq!(dark.text_primary, p.text_primary);
}
#[test]
fn tritanopia_has_distinct_status_colors() {
    let t = Theme::tritanopia();
    assert_ne!(t.success, t.warning);
    assert_ne!(t.success, t.error);
    assert_ne!(t.warning, t.error);
    assert_ne!(t.success, t.info);
}
#[test]
fn tritanopia_success_is_teal() {
    let t = Theme::tritanopia();
    assert!(t.success.g >= 150);
    assert!(t.success.b >= 150);
    assert!(t.success.r < 50);
}
#[test]
fn tritanopia_shares_dark_base() {
    let dark = Theme::dark();
    let tr = Theme::tritanopia();
    assert_eq!(dark.background, tr.background);
    assert_eq!(dark.surface, tr.surface);
    assert_eq!(dark.text_primary, tr.text_primary);
}
#[test]
fn interactive_border_disabled() {
    let t = Theme::dark();
    assert_eq!(t.interactive_border(true, false), t.border_subtle);
    assert_eq!(t.interactive_border(true, true), t.border_subtle);
}
#[test]
fn interactive_border_selected() {
    let t = Theme::dark();
    assert_eq!(t.interactive_border(false, true), t.accent);
}
#[test]
fn interactive_border_default() {
    let t = Theme::dark();
    assert_eq!(t.interactive_border(false, false), t.input_border);
}
#[test]
fn interactive_accent_disabled() {
    let t = Theme::dark();
    assert_eq!(t.interactive_accent(true), t.text_disabled);
}
#[test]
fn interactive_accent_enabled() {
    let t = Theme::dark();
    assert_eq!(t.interactive_accent(false), t.accent);
}
#[test]
fn interactive_text_disabled() {
    let t = Theme::dark();
    assert_eq!(t.interactive_text(true), t.text_disabled);
}
#[test]
fn interactive_text_enabled() {
    let t = Theme::dark();
    assert_eq!(t.interactive_text(false), t.text_primary);
}
#[test]
fn slider_slots_default_to_legacy_sources() {
    for t in [
        Theme::dark(),
        Theme::light(),
        Theme::high_contrast(),
        Theme::colorblind(),
    ] {
        assert_eq!(t.slider_track, t.input_bg);
        assert_eq!(t.slider_fill, t.accent);
        assert_eq!(t.slider_thumb, t.surface);
    }
}
#[test]
fn slider_dark_defaults_match_old_literals() {
    let t = Theme::dark();
    assert_eq!(t.slider_track, Color::rgb(25, 25, 35));
    assert_eq!(t.slider_fill, Color::rgb(80, 160, 255));
    assert_eq!(t.slider_thumb, Color::rgb(30, 30, 40));
}
#[test]
fn classic_slider_fill_follows_accent() {
    let t = Theme::classic();
    assert_eq!(t.slider_fill, t.accent);
    assert_eq!(t.slider_fill, Color::rgb(255, 140, 30));
}
#[test]
fn menu_slots_default_to_win95_grays_in_all_themes() {
    for t in [
        Theme::dark(),
        Theme::light(),
        Theme::classic(),
        Theme::high_contrast(),
        Theme::colorblind(),
        Theme::protanopia(),
        Theme::tritanopia(),
    ] {
        assert_eq!(t.menu_bg, Color::rgb(240, 240, 240));
        assert_eq!(t.menu_border, Color::rgb(180, 180, 180));
        assert_eq!(t.menu_text, Color::rgb(30, 30, 30));
        assert_eq!(t.menu_hover_bg, Color::rgb(49, 106, 197));
        assert_eq!(t.menu_hover_text, Color::rgb(255, 255, 255));
        assert_eq!(t.menu_dropdown_bg, Color::rgb(236, 236, 236));
        assert_eq!(t.menu_dropdown_border_light, Color::rgb(255, 255, 255));
        assert_eq!(t.menu_dropdown_border_dark, Color::rgb(105, 105, 105));
        assert_eq!(t.menu_item_text, Color::rgb(20, 20, 20));
        assert_eq!(t.menu_disabled_text, Color::rgb(150, 150, 150));
        assert_eq!(t.menu_separator, Color::rgb(170, 170, 170));
    }
}
