use oasis_ui::spinner::{Spinner, SpinnerStyle};
use oasis_ui::draw::DrawOp;



#[test]
fn spinner_new_defaults() {
    let s = Spinner::new();
    assert_eq!(s.style, SpinnerStyle::Text);
    assert_eq!(s.elapsed_ms, 0);
    assert_eq!(s.frame_duration_ms, 150);
    assert!(s.label.is_none());
}

#[test]
fn spinner_default_same_as_new() {
    let s = Spinner::default();
    assert_eq!(s.style, SpinnerStyle::Text);
    assert_eq!(s.elapsed_ms, 0);
}

#[test]
fn with_label_sets_label() {
    let s = Spinner::with_label("Loading...");
    assert_eq!(s.label.as_deref(), Some("Loading..."));
}

#[test]
fn tick_advances_time() {
    let mut s = Spinner::new();
    s.tick(100);
    assert_eq!(s.elapsed_ms, 100);
    s.tick(50);
    assert_eq!(s.elapsed_ms, 150);
}

#[test]
fn frame_index_zero_initially() {
    let s = Spinner::new();
    assert_eq!(s.frame_index(), 0);
}

#[test]
fn frame_index_advances_with_time() {
    let mut s = Spinner::new();
    // frame_duration_ms = 150, 4 frames for Text style.
    s.tick(150);
    assert_eq!(s.frame_index(), 1);
    s.tick(150);
    assert_eq!(s.frame_index(), 2);
    s.tick(150);
    assert_eq!(s.frame_index(), 3);
}

#[test]
fn frame_index_wraps_around() {
    let mut s = Spinner::new();
    // 4 frames * 150ms = 600ms for a full cycle.
    s.tick(600);
    assert_eq!(s.frame_index(), 0);
    s.tick(150);
    assert_eq!(s.frame_index(), 1);
}

#[test]
fn current_char_cycles() {
    let mut s = Spinner::new();
    assert_eq!(s.current_char(), '|');
    s.tick(150);
    assert_eq!(s.current_char(), '/');
    s.tick(150);
    assert_eq!(s.current_char(), '-');
    s.tick(150);
    assert_eq!(s.current_char(), '\\');
    s.tick(150);
    assert_eq!(s.current_char(), '|');
}

#[test]
fn dots_style_frame_count() {
    let mut s = Spinner::new();
    s.style = SpinnerStyle::Dots;
    // 3 frames for dots.
    assert_eq!(s.frame_index(), 0);
    s.tick(150);
    assert_eq!(s.frame_index(), 1);
    s.tick(150);
    assert_eq!(s.frame_index(), 2);
    s.tick(150);
    assert_eq!(s.frame_index(), 0);
}

#[test]
fn bar_style_frame_count() {
    let mut s = Spinner::new();
    s.style = SpinnerStyle::Bar;
    // 8 frames for bar.
    s.tick(150 * 7);
    assert_eq!(s.frame_index(), 7);
    s.tick(150);
    assert_eq!(s.frame_index(), 0);
}

#[test]
fn zero_frame_duration_no_panic() {
    let mut s = Spinner::new();
    s.frame_duration_ms = 0;
    // Should not panic or divide by zero.
    assert_eq!(s.frame_index(), 0);
    s.tick(100);
    let _ = s.frame_index();
}

#[test]
fn style_variants_distinct() {
    assert_ne!(SpinnerStyle::Text, SpinnerStyle::Dots);
    assert_ne!(SpinnerStyle::Dots, SpinnerStyle::Bar);
    assert_ne!(SpinnerStyle::Text, SpinnerStyle::Bar);
}

#[test]
fn tick_wrapping() {
    let mut s = Spinner::new();
    s.elapsed_ms = u32::MAX - 10;
    s.tick(20); // Should wrap around.
    assert_eq!(s.elapsed_ms, 9);
}

#[test]
fn glyph_is_static_star_under_reduced_motion() {
    let mut s = Spinner::new();
    assert_eq!(s.glyph(true), '*');
    assert_eq!(s.glyph(false), s.current_char());
    s.tick(s.frame_duration_ms);
    assert_eq!(s.glyph(true), '*');
    assert_eq!(s.glyph(false), '/');
}

#[test]
fn label_offset_per_style() {
    let mut s = Spinner::with_label("Loading");
    assert_eq!(s.label_offset(8), Some(16));
    s.style = SpinnerStyle::Dots;
    assert_eq!(s.label_offset(8), Some(28));
    s.style = SpinnerStyle::Bar;
    assert_eq!(s.label_offset(8), None);
    assert_eq!(Spinner::new().label_offset(8), None);
}

#[test]
fn draw_ops_text_style_draws_glyph_and_label() {
    let s = Spinner::with_label("Loading");
    let theme = oasis_ui::theme::Theme::dark();
    let fs = theme.font_size_md;
    let ops = s.draw(&theme, 0, 0, 40, 20, 10, 8);
    assert_eq!(
        ops,
        vec![
            DrawOp::Text { text: "|".into(), x: 2, y: 5, font_size: fs, color: theme.accent },
            DrawOp::Text { text: "Loading".into(), x: 16, y: 5, font_size: fs, color: theme.text_secondary },
        ]
    );
    let mut calm = oasis_ui::theme::Theme::dark();
    calm.reduced_motion = true;
    let ops = Spinner::new().draw(&calm, 0, 0, 40, 20, 10, 8);
    assert_eq!(ops, vec![DrawOp::Text { text: "*".into(), x: 2, y: 5, font_size: fs, color: calm.accent }]);
}

#[test]
fn draw_ops_dots_and_bar_styles() {
    let mut s = Spinner::new();
    s.style = SpinnerStyle::Dots;
    let theme = oasis_ui::theme::Theme::dark();
    let ops = s.draw(&theme, 0, 0, 40, 20, 10, 8);
    assert_eq!(
        ops,
        vec![
            DrawOp::FillRect { x: 2, y: 8, w: 4, h: 4, color: theme.accent.with_alpha(255) },
            DrawOp::FillRect { x: 9, y: 8, w: 4, h: 4, color: theme.accent.with_alpha(80) },
            DrawOp::FillRect { x: 16, y: 8, w: 4, h: 4, color: theme.accent.with_alpha(80) },
        ]
    );
    s.style = SpinnerStyle::Bar;
    let ops = s.draw(&theme, 0, 0, 40, 20, 10, 8);
    assert_eq!(
        ops,
        vec![
            DrawOp::FillRect { x: 2, y: 8, w: 36, h: 4, color: theme.scrollbar_track },
            DrawOp::FillRect { x: 2, y: 8, w: 9, h: 4, color: theme.accent },
        ]
    );
    let mut calm = oasis_ui::theme::Theme::dark();
    calm.reduced_motion = true;
    let ops = s.draw(&calm, 0, 0, 40, 20, 10, 8);
    assert_eq!(ops[1], DrawOp::FillRect { x: 15, y: 8, w: 9, h: 4, color: calm.accent });
}
