use oasis_ui::checkbox::Checkbox;
use oasis_ui::draw::DrawOp;



#[test]
fn new_checked() {
    let c = Checkbox::new("Enable", true);
    assert!(c.checked);
    assert_eq!(c.label, "Enable");
    assert!(!c.disabled);
}

#[test]
fn new_unchecked() {
    let c = Checkbox::new("Enable", false);
    assert!(!c.checked);
}

#[test]
fn toggle_flips() {
    let mut c = Checkbox::new("Test", false);
    assert!(c.toggle());
    assert!(c.checked);
    assert!(!c.toggle());
    assert!(!c.checked);
}

#[test]
fn toggle_disabled_noop() {
    let mut c = Checkbox::new("Test", false);
    c.disabled = true;
    assert!(!c.toggle());
    assert!(!c.checked);
}

#[test]
fn from_string() {
    let c = Checkbox::new(&String::from("Dynamic"), true);
    assert_eq!(c.label, "Dynamic");
}

#[test]
fn draw_ops_checked_box_with_tick_and_label() {
    let cb = Checkbox::new("Agree", true);
    let theme = oasis_ui::theme::Theme::dark();
    let r = theme.border_radius_sm;
    let ops = cb.draw(&theme, 0, 0, 20, 10, 8, 8);
    let expected = vec![
        DrawOp::FillRoundedRect { x: 0, y: 3, w: 14, h: 14, radius: r, color: theme.accent },
        DrawOp::StrokeRoundedRect { x: 0, y: 3, w: 14, h: 14, radius: r, width: 1, color: theme.accent },
        DrawOp::Text {
            text: "\u{2713}".into(),
            x: 3,
            y: 6,
            font_size: theme.font_size_md.min(10),
            color: theme.text_on_accent,
        },
        DrawOp::Text { text: "Agree".into(), x: 20, y: 5, font_size: theme.font_size_md, color: theme.text_primary },
    ];
    assert_eq!(ops, expected);
}

#[test]
fn draw_ops_unchecked_unlabelled_box() {
    let mut cb = Checkbox::new("", false);
    cb.disabled = true;
    let theme = oasis_ui::theme::Theme::dark();
    let ops = cb.draw(&theme, 0, 0, 20, 10, 8, 8);
    assert_eq!(ops.len(), 2);
    assert_eq!(
        ops[1],
        DrawOp::StrokeRoundedRect { x: 0, y: 3, w: 14, h: 14, radius: theme.border_radius_sm, width: 1, color: theme.border_subtle }
    );
}
