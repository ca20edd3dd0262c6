use oasis_ui::tooltip::{Tooltip, TooltipAnchor, TooltipPosition, TooltipState};
use oasis_ui::draw::{DrawOp, ShadowKind};



/// Helper to create a `TooltipAnchor` concisely.
fn anchor(tx: i32, ty: i32, tw: u32, th: u32, vw: u32, vh: u32) -> TooltipAnchor {
    TooltipAnchor::new(tx, ty, tw, th, vw, vh)
}

// -- State machine tests --

#[test]
fn tooltip_new_defaults() {
    let t = Tooltip::new("Help text");
    assert_eq!(t.text, "Help text");
    assert_eq!(t.position, TooltipPosition::Below);
    assert_eq!(t.state, TooltipState::Hidden);
    assert_eq!(t.delay_ms, 500);
    assert_eq!(t.elapsed_ms, 0);
    assert_eq!(t.pad_h, 6);
    assert_eq!(t.pad_v, 3);
    assert_eq!(t.gap, 4);
}

#[test]
fn with_position() {
    let t = Tooltip::new("Tip").with_position(TooltipPosition::Above);
    assert_eq!(t.position, TooltipPosition::Above);
}

#[test]
fn with_delay() {
    let t = Tooltip::new("Tip").with_delay(250);
    assert_eq!(t.delay_ms, 250);
}

#[test]
fn hover_start_transitions_to_waiting() {
    let mut t = Tooltip::new("Tip");
    t.on_hover_start();
    assert_eq!(t.state, TooltipState::Waiting);
    assert_eq!(t.elapsed_ms, 0);
}

#[test]
fn hover_start_while_waiting_is_idempotent() {
    let mut t = Tooltip::new("Tip");
    t.on_hover_start();
    t.tick(100);
    t.on_hover_start(); // should not reset elapsed
    assert_eq!(t.elapsed_ms, 100);
}

#[test]
fn hover_end_resets_to_hidden() {
    let mut t = Tooltip::new("Tip");
    t.on_hover_start();
    t.tick(600);
    assert_eq!(t.state, TooltipState::Visible);
    t.on_hover_end();
    assert_eq!(t.state, TooltipState::Hidden);
    assert_eq!(t.elapsed_ms, 0);
}

#[test]
fn tick_accumulates_time() {
    let mut t = Tooltip::new("Tip").with_delay(100);
    t.on_hover_start();
    t.tick(40);
    assert_eq!(t.state, TooltipState::Waiting);
    assert_eq!(t.elapsed_ms, 40);
    t.tick(40);
    assert_eq!(t.state, TooltipState::Waiting);
    assert_eq!(t.elapsed_ms, 80);
    t.tick(40);
    assert_eq!(t.state, TooltipState::Visible);
    assert_eq!(t.elapsed_ms, 120);
}

#[test]
fn tick_does_nothing_when_hidden() {
    let mut t = Tooltip::new("Tip");
    t.tick(1000);
    assert_eq!(t.state, TooltipState::Hidden);
    assert_eq!(t.elapsed_ms, 0);
}

#[test]
fn tick_does_nothing_when_visible() {
    let mut t = Tooltip::new("Tip").with_delay(50);
    t.on_hover_start();
    t.tick(100);
    assert_eq!(t.state, TooltipState::Visible);
    let before = t.elapsed_ms;
    t.tick(100);
    assert_eq!(t.elapsed_ms, before);
}

#[test]
fn is_visible_states() {
    let mut t = Tooltip::new("Tip");
    assert!(!t.is_visible());
    t.on_hover_start();
    assert!(!t.is_visible());
    t.tick(600);
    assert!(t.is_visible());
    t.on_hover_end();
    assert!(!t.is_visible());
}

#[test]
fn zero_delay_shows_immediately() {
    let mut t = Tooltip::new("Instant").with_delay(0);
    t.on_hover_start();
    t.tick(0);
    assert_eq!(t.state, TooltipState::Visible);
}

#[test]
fn position_variants_debug() {
    for pos in [
        TooltipPosition::Above,
        TooltipPosition::Below,
        TooltipPosition::Left,
        TooltipPosition::Right,
    ] {
        let _ = format!("{pos:?}");
    }
}

#[test]
fn tooltip_state_variants_debug() {
    for state in [
        TooltipState::Hidden,
        TooltipState::Waiting,
        TooltipState::Visible,
    ] {
        let _ = format!("{state:?}");
    }
}

#[test]
fn tooltip_from_string_type() {
    let t = Tooltip::new(&String::from("dynamic"));
    assert_eq!(t.text, "dynamic");
}

#[test]
fn elapsed_saturates() {
    let mut t = Tooltip::new("Tip").with_delay(u32::MAX);
    t.on_hover_start();
    t.tick(u32::MAX);
    // Should not overflow.
    assert_eq!(t.elapsed_ms, u32::MAX);
}

/// Text metrics of the 8-pixel bitmap font used by the test backend.
fn rect_of(t: &Tooltip, a: &TooltipAnchor) -> (i32, i32, u32, u32) {
    t.compute_rect(t.text.len() as u32 * 8, 8, a)
}

#[test]
fn compute_rect_above() {
    let t = Tooltip::new("Tip").with_position(TooltipPosition::Above);
    let (_x, y, _w, h) = rect_of(&t, &anchor(100, 100, 40, 20, 480, 272));
    assert!(y + h as i32 <= 100);
}

#[test]
fn compute_rect_left() {
    let t = Tooltip::new("Tip").with_position(TooltipPosition::Left);
    let (x, _y, w, _h) = rect_of(&t, &anchor(200, 100, 40, 20, 480, 272));
    assert!(x + w as i32 <= 200);
}

#[test]
fn compute_rect_right() {
    let t = Tooltip::new("Tip").with_position(TooltipPosition::Right);
    let (x, _y, _w, _h) = rect_of(&t, &anchor(100, 100, 40, 20, 480, 272));
    assert!(x >= 100 + 40);
}

#[test]
fn compute_rect_clamps_right_edge() {
    let t = Tooltip::new("Long tooltip text here");
    let (x, _y, w, _h) = rect_of(&t, &anchor(460, 100, 20, 20, 480, 272));
    assert!(x + w as i32 <= 480);
}

#[test]
fn compute_rect_clamps_bottom_edge() {
    let t = Tooltip::new("Tip").with_position(TooltipPosition::Below);
    let (_x, y, _w, h) = rect_of(&t, &anchor(100, 260, 40, 20, 480, 272));
    assert!(y + h as i32 <= 272);
}

#[test]
fn compute_rect_clamps_top_edge() {
    let t = Tooltip::new("Tip").with_position(TooltipPosition::Above);
    let (_x, y, _w, _h) = rect_of(&t, &anchor(100, 0, 40, 20, 480, 272));
    assert!(y >= 0);
}

#[test]
fn compute_rect_clamps_left_edge() {
    let t = Tooltip::new("Tip").with_position(TooltipPosition::Left);
    let (x, _y, _w, _h) = rect_of(&t, &anchor(0, 100, 10, 20, 480, 272));
    assert!(x >= 0);
}

#[test]
fn compute_rect_tiny_viewport() {
    let t = Tooltip::new("Too big for viewport");
    let (x, y, _w, _h) = rect_of(&t, &anchor(0, 0, 10, 10, 20, 20));
    assert!(x >= 0);
    assert!(y >= 0);
}

#[test]
fn compute_rect_exact_below_position() {
    // "Tip" is 24 px wide; with 6 px padding each side the tooltip is 36x14.
    let t = Tooltip::new("Tip");
    let r = t.compute_rect(24, 8, &TooltipAnchor::new(100, 50, 40, 20, 480, 272));
    // centred: 100 + (40 - 36 + 1) / 2 = 102; below: 50 + 20 + 4 = 74.
    assert_eq!(r, (102, 74, 36, 14));
}

#[test]
fn draw_ops_visible_tooltip_draws_box_and_centred_text() {
    let mut t = Tooltip::new("Hint");
    let theme = oasis_ui::theme::Theme::dark();
    assert!(t.draw(&theme, 0, 0, 40, 16, 24, 8).is_empty());
    t.state = TooltipState::Visible;
    let r = theme.border_radius_sm;
    let ops = t.draw(&theme, 10, 20, 40, 16, 24, 8);
    let expected = vec![
        DrawOp::Shadow { x: 10, y: 20, w: 40, h: 16, radius: r, kind: ShadowKind::Tooltip },
        DrawOp::FillRoundedRect { x: 10, y: 20, w: 40, h: 16, radius: r, color: theme.tooltip_bg },
        DrawOp::StrokeRoundedRect { x: 10, y: 20, w: 40, h: 16, radius: r, width: 1, color: theme.border_subtle },
        DrawOp::Text { text: "Hint".into(), x: 18, y: 24, font_size: theme.font_size_xs, color: theme.tooltip_text },
    ];
    assert_eq!(ops, expected);
}

#[test]
fn draw_at_places_the_box_where_compute_rect_does() {
    let mut t = Tooltip::new("Tip");
    let a = anchor(100, 100, 40, 20, 480, 272);
    let theme = oasis_ui::theme::Theme::dark();
    assert!(t.draw_at(&theme, &a, 24, 8).is_empty());
    t.state = TooltipState::Visible;
    let (x, y, w, h) = t.compute_rect(24, 8, &a);
    assert_eq!(t.draw_at(&theme, &a, 24, 8), t.draw(&theme, x, y, w, h, 24, 8));
    assert_eq!(t.draw_at(&theme, &a, 24, 8).len(), 4);
}
