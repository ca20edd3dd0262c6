use oasis_ui::color::Color;
use oasis_ui::draw::{DrawOp, ShadowKind};
use oasis_ui::dropdown::{Dropdown, RowColors};



fn sample_options() -> Vec<String> {
    vec!["Alpha".into(), "Beta".into(), "Gamma".into()]
}

#[test]
fn dropdown_new_defaults() {
    let d = Dropdown::new(sample_options());
    assert_eq!(d.selected, 0);
    assert!(!d.open);
    assert!(d.placeholder.is_empty());
    assert_eq!(d.options.len(), 3);
}

#[test]
fn selected_text_returns_current() {
    let d = Dropdown::new(sample_options());
    assert_eq!(d.selected_text(), "Alpha");
}

#[test]
fn selected_text_fallback_to_placeholder() {
    let mut d = Dropdown::new(vec![]);
    d.placeholder = "Pick one".into();
    assert_eq!(d.selected_text(), "Pick one");
}

#[test]
fn dropdown_select_next_wraps() {
    let mut d = Dropdown::new(sample_options());
    d.select_next();
    assert_eq!(d.selected, 1);
    d.select_next();
    assert_eq!(d.selected, 2);
    d.select_next();
    assert_eq!(d.selected, 0); // wraps
}

#[test]
fn dropdown_select_prev_wraps() {
    let mut d = Dropdown::new(sample_options());
    d.select_prev();
    assert_eq!(d.selected, 2); // wraps from 0 to last
    d.select_prev();
    assert_eq!(d.selected, 1);
}

#[test]
fn dropdown_select_next_empty_noop() {
    let mut d = Dropdown::new(vec![]);
    d.select_next();
    assert_eq!(d.selected, 0);
}

#[test]
fn select_prev_empty_noop() {
    let mut d = Dropdown::new(vec![]);
    d.select_prev();
    assert_eq!(d.selected, 0);
}

#[test]
fn toggle_open_close() {
    let mut d = Dropdown::new(sample_options());
    assert!(!d.open);
    d.toggle();
    assert!(d.open);
    d.toggle();
    assert!(!d.open);
}

#[test]
fn disabled_toggle_stays_closed() {
    let mut d = Dropdown::new(sample_options());
    d.disabled = true;
    d.toggle();
    assert!(!d.open);
}

#[test]
fn option_at_maps_rows() {
    let mut d = Dropdown::new(sample_options());
    // Rows are the text height (8 px here) plus 6.
    let row_h = 14;
    assert_eq!(d.option_at(8, row_h + 1), None, "closed");
    d.open = true;
    assert_eq!(d.option_at(8, 1), None, "header");
    assert_eq!(d.option_at(8, row_h + 1), Some(0));
    assert_eq!(d.option_at(8, row_h * 3 + 1), Some(2));
    assert_eq!(d.option_at(8, row_h * 9), None);
}

#[test]
fn draw_ops_open_list_with_selected_and_hovered_rows() {
    let mut d = Dropdown::new(vec!["Alpha".into(), "Beta".into(), "Gamma".into()]);
    d.open = true;
    d.selected = 1;
    d.hovered_index = Some(2);
    let theme = oasis_ui::theme::Theme::dark();
    let header = Color::rgb(9, 9, 9);
    let hov = Color::rgb(1, 1, 1);
    let sel = Color::rgb(2, 2, 2);
    let both = Color::rgb(3, 3, 3);
    let rows = RowColors { plain: None, hovered: Some(hov), selected: Some(sel), selected_hovered: Some(both) };
    let r = theme.border_radius_md;
    let fs = theme.font_size_md;
    let ops = d.draw(&theme, header, &rows, 0, 0, 200, 80, 10, 8);
    let expected = vec![
        DrawOp::FillRoundedRect { x: 0, y: 0, w: 200, h: 16, radius: r, color: header },
        DrawOp::StrokeRoundedRect { x: 0, y: 0, w: 200, h: 16, radius: r, width: 1, color: theme.input_border },
        DrawOp::TextEllipsis { text: "Beta".into(), x: 6, y: 3, font_size: fs, color: theme.text_primary, max_w: 180 },
        DrawOp::Text { text: "\u{25B2}".into(), x: 188, y: 3, font_size: fs, color: theme.text_secondary },
        DrawOp::Shadow { x: 0, y: 16, w: 200, h: 64, radius: r, kind: ShadowKind::Dropdown },
        DrawOp::FillRoundedRect { x: 0, y: 16, w: 200, h: 64, radius: r, color: theme.surface },
        DrawOp::StrokeRoundedRect { x: 0, y: 16, w: 200, h: 64, radius: r, width: 1, color: theme.border_subtle },
        DrawOp::TextEllipsis { text: "Alpha".into(), x: 6, y: 19, font_size: fs, color: theme.text_primary, max_w: 188 },
        DrawOp::FillRect { x: 1, y: 32, w: 198, h: 16, color: sel },
        DrawOp::TextEllipsis { text: "Beta".into(), x: 6, y: 35, font_size: fs, color: theme.accent, max_w: 188 },
        DrawOp::FillRect { x: 1, y: 48, w: 198, h: 16, color: hov },
        DrawOp::TextEllipsis { text: "Gamma".into(), x: 6, y: 51, font_size: fs, color: theme.text_primary, max_w: 188 },
    ];
    assert_eq!(ops, expected);
}

#[test]
fn draw_ops_closed_empty_shows_placeholder_disabled_and_down_arrow() {
    let mut d = Dropdown::new(vec![]);
    d.placeholder = "Select...".into();
    let theme = oasis_ui::theme::Theme::dark();
    let rows = RowColors { plain: None, hovered: None, selected: None, selected_hovered: None };
    let ops = d.draw(&theme, theme.input_bg, &rows, 0, 0, 200, 20, 10, 8);
    assert_eq!(ops.len(), 4);
    assert_eq!(
        ops[2],
        DrawOp::TextEllipsis {
            text: "Select...".into(),
            x: 6,
            y: 3,
            font_size: theme.font_size_md,
            color: theme.text_disabled,
            max_w: 180,
        }
    );
    assert!(matches!(&ops[3], DrawOp::Text { text, .. } if text.as_str() == "\u{25BC}"));
}
