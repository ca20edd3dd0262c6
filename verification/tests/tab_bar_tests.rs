use oasis_ui::color::Color;
use oasis_ui::draw::DrawOp;
use oasis_ui::tab_bar::{TabBar, TabStyle};
use oasis_ui::theme::Theme;



#[test]
fn tab_bar_new_defaults() {
    let tabs = vec!["Home".into(), "Settings".into(), "About".into()];
    let tb = TabBar::new(tabs);
    assert_eq!(tb.tabs.len(), 3);
    assert_eq!(tb.active, 0);
    assert_eq!(tb.style, TabStyle::Underline);
}

#[test]
fn active_index_settable() {
    let mut tb = TabBar::new(vec!["A".into(), "B".into()]);
    tb.active = 1;
    assert_eq!(tb.active, 1);
}

#[test]
fn tab_bar_style_variants() {
    assert_ne!(TabStyle::Underline, TabStyle::Filled);
    assert_ne!(TabStyle::Filled, TabStyle::Pill);
}

#[test]
fn empty_tabs() {
    let tb = TabBar::new(Vec::new());
    assert!(tb.tabs.is_empty());
}

#[test]
fn single_tab() {
    let tb = TabBar::new(vec!["Only".into()]);
    assert_eq!(tb.tabs.len(), 1);
    assert_eq!(tb.active, 0);
}

fn tabs() -> Vec<String> {
    vec!["A".into(), "B".into(), "C".into()]
}

#[test]
fn tab_at_matches_draw_layout() {
    let tb = TabBar::new(tabs());
    // 100 / 3 = 33 rem 1: tab 0 spans 0..34, tab 1 34..67, tab 2 67..100.
    assert_eq!(tb.tab_at(0, 100), Some(0));
    assert_eq!(tb.tab_at(33, 100), Some(0));
    assert_eq!(tb.tab_at(34, 100), Some(1));
    assert_eq!(tb.tab_at(66, 100), Some(1));
    assert_eq!(tb.tab_at(67, 100), Some(2));
    assert_eq!(tb.tab_at(99, 100), Some(2));
    assert_eq!(tb.tab_at(100, 100), None);
    assert_eq!(tb.tab_at(-1, 100), None);
}

#[test]
fn draw_ops_underline_with_hovered_inactive_tab() {
    let mut tb = TabBar::new(vec!["A".into(), "B".into()]);
    tb.hovered = Some(1);
    let theme = Theme::dark();
    let hover = Color::rgb(1, 2, 3);
    let ops = tb.draw(&theme, hover, 10, 20, 100, 30, 10, &vec![8, 8]);
    let expected = vec![
        DrawOp::FillRect { x: 10, y: 48, w: 50, h: 2, color: theme.accent },
        DrawOp::Text { text: "A".into(), x: 31, y: 30, font_size: theme.font_size_md, color: theme.accent },
        DrawOp::FillRoundedRect { x: 62, y: 22, w: 46, h: 26, radius: theme.border_radius_sm, color: hover },
        DrawOp::Text {
            text: "B".into(),
            x: 81,
            y: 30,
            font_size: theme.font_size_md,
            color: theme.text_secondary,
        },
        DrawOp::Line { x1: 10, y1: 49, x2: 110, y2: 49, width: 1, color: theme.border_subtle },
    ];
    assert_eq!(ops, expected);
}

#[test]
fn draw_ops_pill_focused_draws_ring_and_no_bottom_line() {
    let mut tb = TabBar::new(vec!["Tab".into()]);
    tb.style = TabStyle::Pill;
    tb.focused = true;
    let theme = Theme::dark();
    let ops = tb.draw(&theme, theme.surface, 0, 0, 40, 24, 8, &vec![20]);
    assert_eq!(ops.len(), 3);
    assert_eq!(
        ops[0],
        DrawOp::FillRoundedRect { x: 2, y: 2, w: 36, h: 20, radius: 10, color: theme.accent }
    );
    assert!(matches!(ops[1], DrawOp::StrokeRoundedRect { x: -1, y: -1, w: 42, h: 26, .. }));
    assert_eq!(
        ops[2],
        DrawOp::Text { text: "Tab".into(), x: 10, y: 8, font_size: theme.font_size_md, color: theme.text_on_accent }
    );
}

#[test]
fn draw_ops_empty_bar_draws_nothing() {
    let tb = TabBar::new(Vec::new());
    let theme = Theme::dark();
    assert!(tb.draw(&theme, theme.surface, 0, 0, 100, 30, 10, &Vec::new()).is_empty());
}
