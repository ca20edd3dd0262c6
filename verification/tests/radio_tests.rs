use oasis_ui::radio::RadioGroup;
use oasis_ui::draw::DrawOp;



fn sample() -> Vec<String> {
    vec!["Small".into(), "Medium".into(), "Large".into()]
}

#[test]
fn radio_new_defaults() {
    let r = RadioGroup::new(sample());
    assert_eq!(r.selected, 0);
    assert!(!r.disabled);
    assert_eq!(r.options.len(), 3);
}

#[test]
fn select_valid_index() {
    let mut r = RadioGroup::new(sample());
    r.select(2);
    assert_eq!(r.selected, 2);
}

#[test]
fn select_out_of_bounds_noop() {
    let mut r = RadioGroup::new(sample());
    r.select(10);
    assert_eq!(r.selected, 0);
}

#[test]
fn radio_select_disabled_noop() {
    let mut r = RadioGroup::new(sample());
    r.disabled = true;
    r.select(2);
    assert_eq!(r.selected, 0);
}

#[test]
fn radio_select_next_wraps() {
    let mut r = RadioGroup::new(sample());
    r.select_next();
    assert_eq!(r.selected, 1);
    r.select_next();
    assert_eq!(r.selected, 2);
    r.select_next();
    assert_eq!(r.selected, 0);
}

#[test]
fn radio_select_prev_wraps() {
    let mut r = RadioGroup::new(sample());
    r.select_prev();
    assert_eq!(r.selected, 2);
}

#[test]
fn radio_select_next_empty_noop() {
    let mut r = RadioGroup::new(vec![]);
    r.select_next();
    assert_eq!(r.selected, 0);
}

#[test]
fn select_next_disabled_noop() {
    let mut r = RadioGroup::new(sample());
    r.disabled = true;
    r.select_next();
    assert_eq!(r.selected, 0);
}

#[test]
fn selected_label_returns_correct() {
    let mut r = RadioGroup::new(sample());
    assert_eq!(r.selected_label(), Some("Small"));
    r.select(1);
    assert_eq!(r.selected_label(), Some("Medium"));
}

#[test]
fn selected_label_empty_options() {
    let r = RadioGroup::new(vec![]);
    assert_eq!(r.selected_label(), None);
}

#[test]
fn draw_ops_circles_dot_and_labels() {
    let mut g = RadioGroup::new(vec!["One".into(), "Two".into()]);
    g.select(1);
    let theme = oasis_ui::theme::Theme::dark();
    let fs = theme.font_size_md;
    let ops = g.draw(&theme, 0, 0, 10);
    let expected = vec![
        DrawOp::StrokeRoundedRect { x: 0, y: 0, w: 14, h: 14, radius: 7, width: 1, color: theme.input_border },
        DrawOp::Text { text: "One".into(), x: 20, y: 2, font_size: fs, color: theme.text_primary },
        DrawOp::StrokeRoundedRect { x: 0, y: 18, w: 14, h: 14, radius: 7, width: 1, color: theme.accent },
        DrawOp::FillRoundedRect { x: 3, y: 21, w: 8, h: 8, radius: 4, color: theme.accent },
        DrawOp::Text { text: "Two".into(), x: 20, y: 20, font_size: fs, color: theme.text_primary },
    ];
    assert_eq!(ops, expected);
}
