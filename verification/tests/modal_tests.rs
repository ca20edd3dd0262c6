use oasis_ui::modal::Modal;
use oasis_ui::draw::{DrawOp, ShadowKind};



#[test]
fn modal_new_defaults() {
    let m = Modal::new("Title", "Body");
    assert_eq!(m.title, "Title");
    assert_eq!(m.body, "Body");
    assert_eq!(m.buttons, vec!["OK"]);
    assert_eq!(m.focused_button, 0);
    assert!(m.show_backdrop);
}

#[test]
fn confirm_has_two_buttons() {
    let m = Modal::confirm("Delete?", "Are you sure?");
    assert_eq!(m.buttons.len(), 2);
    assert_eq!(m.buttons[0], "Cancel");
    assert_eq!(m.buttons[1], "OK");
    assert_eq!(m.focused_button, 1); // OK focused by default
}

#[test]
fn focus_next_wraps() {
    let mut m = Modal::confirm("T", "B");
    assert_eq!(m.focused_button, 1);
    m.focus_next();
    assert_eq!(m.focused_button, 0); // wraps
    m.focus_next();
    assert_eq!(m.focused_button, 1);
}

#[test]
fn focus_prev_wraps() {
    let mut m = Modal::confirm("T", "B");
    m.focused_button = 0;
    m.focus_prev();
    assert_eq!(m.focused_button, 1); // wraps
}

#[test]
fn focus_next_empty_noop() {
    let mut m = Modal::new("T", "B");
    m.buttons.clear();
    m.focus_next();
    assert_eq!(m.focused_button, 0);
}

#[test]
fn focused_label_returns_correct() {
    let m = Modal::confirm("T", "B");
    assert_eq!(m.focused_label(), Some("OK"));
}

#[test]
fn focused_label_empty_returns_none() {
    let mut m = Modal::new("T", "B");
    m.buttons.clear();
    assert_eq!(m.focused_label(), None);
}

#[test]
fn draw_ops_centres_panel_and_right_aligns_buttons() {
    let m = Modal::confirm("Delete?", "Are you sure?");
    let theme = oasis_ui::theme::Theme::dark();
    let ops = m.draw(&theme, 0, 0, 480, 272, 14, 10, &vec![36, 12]);
    let (rl, rm) = (theme.border_radius_lg, theme.border_radius_md);
    let expected = vec![
        DrawOp::FillRect { x: 0, y: 0, w: 480, h: 272, color: theme.overlay },
        DrawOp::Shadow { x: 100, y: 93, w: 280, h: 86, radius: rl, kind: ShadowKind::Modal },
        DrawOp::FillRoundedRect { x: 100, y: 93, w: 280, h: 86, radius: rl, color: theme.surface },
        DrawOp::StrokeRoundedRect { x: 100, y: 93, w: 280, h: 86, radius: rl, width: 1, color: theme.border_subtle },
        DrawOp::Text { text: "Delete?".into(), x: 112, y: 105, font_size: theme.font_size_lg, color: theme.text_primary },
        DrawOp::TextWrapped {
            text: "Are you sure?".into(),
            x: 112,
            y: 123,
            font_size: theme.font_size_md,
            color: theme.text_secondary,
            max_w: 256,
            line_h: 0,
        },
        DrawOp::FillRoundedRect { x: 290, y: 145, w: 48, h: 22, radius: rm, color: theme.button_bg },
        DrawOp::Text { text: "Cancel".into(), x: 296, y: 151, font_size: theme.font_size_md, color: theme.text_primary },
        DrawOp::FillRoundedRect { x: 344, y: 145, w: 24, h: 22, radius: rm, color: theme.accent },
        DrawOp::Text { text: "OK".into(), x: 350, y: 151, font_size: theme.font_size_md, color: theme.text_on_accent },
    ];
    assert_eq!(ops, expected);
}

#[test]
fn draw_ops_without_backdrop_or_buttons() {
    let mut m = Modal::new("T", "B");
    m.show_backdrop = false;
    m.buttons.clear();
    let theme = oasis_ui::theme::Theme::dark();
    let ops = m.draw(&theme, 0, 0, 480, 272, 14, 10, &Vec::new());
    assert_eq!(ops.len(), 5);
    assert!(matches!(ops[0], DrawOp::Shadow { kind: ShadowKind::Modal, .. }));
}
