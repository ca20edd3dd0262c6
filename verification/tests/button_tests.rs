use oasis_ui::button::{Button, ButtonState, ButtonStyle};
use oasis_ui::draw::DrawOp;



#[test]
fn button_new_defaults() {
    let b = Button::new("Click");
    assert_eq!(b.label, "Click");
    assert_eq!(b.state, ButtonState::Normal);
    assert_eq!(b.style, ButtonStyle::Secondary);
    assert!(b.icon.is_none());
}

#[test]
fn primary_style() {
    let b = Button::primary("OK");
    assert_eq!(b.style, ButtonStyle::Primary);
    assert_eq!(b.label, "OK");
    assert_eq!(b.state, ButtonState::Normal);
}

#[test]
fn state_transitions() {
    let mut b = Button::new("test");
    assert_eq!(b.state, ButtonState::Normal);
    b.state = ButtonState::Hover;
    assert_eq!(b.state, ButtonState::Hover);
    b.state = ButtonState::Pressed;
    assert_eq!(b.state, ButtonState::Pressed);
    b.state = ButtonState::Disabled;
    assert_eq!(b.state, ButtonState::Disabled);
}

#[test]
fn button_style_variants() {
    assert_ne!(ButtonStyle::Primary, ButtonStyle::Secondary);
    assert_ne!(ButtonStyle::Outline, ButtonStyle::Flat);
    assert_eq!(ButtonStyle::Primary, ButtonStyle::Primary);
}

#[test]
fn button_state_variants_debug() {
    for state in [
        ButtonState::Normal,
        ButtonState::Hover,
        ButtonState::Pressed,
        ButtonState::Disabled,
    ] {
        let _ = format!("{state:?}");
    }
}

#[test]
fn padding_applied() {
    let b = Button::new("test");
    assert!(b.padding.horizontal() > 0);
    assert!(b.padding.vertical() > 0);
}

#[test]
fn button_from_string_type() {
    let b = Button::new(&String::from("dynamic"));
    assert_eq!(b.label, "dynamic");
}

#[test]
fn from_str_ref() {
    let label = "borrowed";
    let b = Button::new(label);
    assert_eq!(b.label, "borrowed");
}

#[test]
fn draw_ops_primary_fills_and_centres_label() {
    let b = Button::primary("Go");
    let theme = oasis_ui::theme::Theme::dark();
    let ops = b.draw(&theme, 10, 10, 60, 24, 16, 10);
    assert_eq!(
        ops,
        vec![
            DrawOp::FillRoundedRect { x: 10, y: 10, w: 60, h: 24, radius: theme.border_radius_md, color: theme.accent },
            DrawOp::Text { text: "Go".into(), x: 32, y: 17, font_size: theme.font_size_md, color: theme.text_on_accent },
        ]
    );
}

#[test]
fn draw_ops_outline_at_rest_has_border_and_no_fill() {
    let mut b = Button::new("Cancel");
    b.style = ButtonStyle::Outline;
    b.state = ButtonState::Normal;
    let theme = oasis_ui::theme::Theme::dark();
    let ops = b.draw(&theme, 0, 0, 80, 24, 36, 10);
    assert_eq!(
        ops[0],
        DrawOp::StrokeRoundedRect { x: 0, y: 0, w: 80, h: 24, radius: theme.border_radius_md, width: 1, color: theme.border }
    );
    assert_eq!(ops.len(), 2);
}
