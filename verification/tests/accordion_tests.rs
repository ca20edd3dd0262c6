use oasis_ui::accordion::{Accordion, AccordionMode};
use oasis_ui::draw::DrawOp;



// -- Unit tests (no backend needed) --

#[test]
fn accordion_new_defaults() {
    let acc = Accordion::new(AccordionMode::SingleExpand);
    assert_eq!(acc.sections.len(), 0);
    assert_eq!(acc.mode, AccordionMode::SingleExpand);
    assert_eq!(acc.focused_index, 0);
    assert_eq!(acc.header_height, 24);
    assert_eq!(acc.line_height, 16);
}

#[test]
fn add_sections() {
    let mut acc = Accordion::new(AccordionMode::MultiExpand);
    acc.add_section("First", vec!["line1".into()]);
    acc.add_section("Second", vec!["line2a".into(), "line2b".into()]);
    assert_eq!(acc.section_count(), 2);
    assert_eq!(acc.sections[0].header, "First");
    assert_eq!(acc.sections[1].content_lines.len(), 2);
    assert!(!acc.is_expanded(0));
    assert!(!acc.is_expanded(1));
}

#[test]
fn toggle_single_expand() {
    let mut acc = Accordion::new(AccordionMode::SingleExpand);
    acc.add_section("A", vec!["a1".into()]);
    acc.add_section("B", vec!["b1".into()]);
    acc.add_section("C", vec!["c1".into()]);

    acc.toggle(0);
    assert!(acc.is_expanded(0));
    assert!(!acc.is_expanded(1));

    // Expanding another collapses the first.
    acc.toggle(1);
    assert!(!acc.is_expanded(0));
    assert!(acc.is_expanded(1));

    // Collapsing the open one.
    acc.toggle(1);
    assert!(!acc.is_expanded(1));
}

#[test]
fn toggle_multi_expand() {
    let mut acc = Accordion::new(AccordionMode::MultiExpand);
    acc.add_section("A", vec!["a1".into()]);
    acc.add_section("B", vec!["b1".into()]);

    acc.toggle(0);
    acc.toggle(1);
    assert!(acc.is_expanded(0));
    assert!(acc.is_expanded(1));

    acc.toggle(0);
    assert!(!acc.is_expanded(0));
    assert!(acc.is_expanded(1));
}

#[test]
fn accordion_expand_and_collapse() {
    let mut acc = Accordion::new(AccordionMode::MultiExpand);
    acc.add_section("A", vec!["a1".into()]);
    acc.add_section("B", vec!["b1".into()]);

    acc.expand(0);
    assert!(acc.is_expanded(0));

    acc.collapse(0);
    assert!(!acc.is_expanded(0));
}

#[test]
fn expand_all_multi() {
    let mut acc = Accordion::new(AccordionMode::MultiExpand);
    acc.add_section("A", vec!["a1".into()]);
    acc.add_section("B", vec!["b1".into()]);
    acc.add_section("C", vec!["c1".into()]);

    acc.expand_all();
    assert!(acc.is_expanded(0));
    assert!(acc.is_expanded(1));
    assert!(acc.is_expanded(2));
}

#[test]
fn expand_all_single() {
    let mut acc = Accordion::new(AccordionMode::SingleExpand);
    acc.add_section("A", vec!["a1".into()]);
    acc.add_section("B", vec!["b1".into()]);
    acc.add_section("C", vec!["c1".into()]);

    acc.expand_all();
    // Only the last non-disabled section should be expanded.
    assert!(!acc.is_expanded(0));
    assert!(!acc.is_expanded(1));
    assert!(acc.is_expanded(2));
}

#[test]
fn collapse_all() {
    let mut acc = Accordion::new(AccordionMode::MultiExpand);
    acc.add_section("A", vec!["a1".into()]);
    acc.add_section("B", vec!["b1".into()]);
    acc.expand_all();
    assert!(acc.is_expanded(0));

    acc.collapse_all();
    assert!(!acc.is_expanded(0));
    assert!(!acc.is_expanded(1));
}

#[test]
fn navigation_wraps() {
    let mut acc = Accordion::new(AccordionMode::MultiExpand);
    acc.add_section("A", vec![]);
    acc.add_section("B", vec![]);
    acc.add_section("C", vec![]);
    assert_eq!(acc.focused(), 0);

    acc.navigate_down();
    assert_eq!(acc.focused(), 1);
    acc.navigate_down();
    assert_eq!(acc.focused(), 2);
    acc.navigate_down();
    assert_eq!(acc.focused(), 0); // wraps

    acc.navigate_up();
    assert_eq!(acc.focused(), 2); // wraps back
    acc.navigate_up();
    assert_eq!(acc.focused(), 1);
}

#[test]
fn disabled_section_skipping() {
    let mut acc = Accordion::new(AccordionMode::MultiExpand);
    acc.add_section("A", vec![]);
    acc.add_section("B", vec![]);
    acc.add_section("C", vec![]);
    acc.sections[1].disabled = true;

    // Toggle on disabled section is a no-op.
    acc.toggle(1);
    assert!(!acc.is_expanded(1));

    // Expand on disabled section is a no-op.
    acc.expand(1);
    assert!(!acc.is_expanded(1));

    // Navigation skips disabled sections.
    assert_eq!(acc.focused(), 0);
    acc.navigate_down();
    assert_eq!(acc.focused(), 2); // skips B

    acc.navigate_up();
    assert_eq!(acc.focused(), 0); // skips B going up
}

#[test]
fn activate_toggles_focused() {
    let mut acc = Accordion::new(AccordionMode::MultiExpand);
    acc.add_section("A", vec!["content".into()]);
    acc.add_section("B", vec!["content".into()]);
    acc.focused_index = 1;

    acc.activate();
    assert!(!acc.is_expanded(0));
    assert!(acc.is_expanded(1));

    acc.activate();
    assert!(!acc.is_expanded(1));
}

#[test]
fn out_of_bounds_toggle_is_noop() {
    let mut acc = Accordion::new(AccordionMode::MultiExpand);
    acc.add_section("A", vec![]);
    acc.toggle(99);
    assert!(!acc.is_expanded(99));
}

#[test]
fn is_expanded_out_of_bounds() {
    let acc = Accordion::new(AccordionMode::MultiExpand);
    assert!(!acc.is_expanded(0));
    assert!(!acc.is_expanded(100));
}

#[test]
fn navigation_empty_accordion() {
    let mut acc = Accordion::new(AccordionMode::MultiExpand);
    // Should not panic.
    acc.navigate_up();
    acc.navigate_down();
    assert_eq!(acc.focused(), 0);
}

#[test]
fn expand_all_skips_disabled() {
    let mut acc = Accordion::new(AccordionMode::MultiExpand);
    acc.add_section("A", vec![]);
    acc.add_section("B", vec![]);
    acc.sections[1].disabled = true;

    acc.expand_all();
    assert!(acc.is_expanded(0));
    assert!(!acc.is_expanded(1));
}

#[test]
fn all_disabled_navigation_stays() {
    let mut acc = Accordion::new(AccordionMode::MultiExpand);
    acc.add_section("A", vec![]);
    acc.add_section("B", vec![]);
    acc.sections[0].disabled = true;
    acc.sections[1].disabled = true;

    acc.navigate_down();
    // Should stop at start since all are disabled.
    assert_eq!(acc.focused(), 0);

    acc.navigate_up();
    assert_eq!(acc.focused(), 0);
}

#[test]
fn draw_ops_headers_lines_and_expanded_content() {
    let mut acc = Accordion::new(AccordionMode::SingleExpand);
    acc.add_section("A", vec!["l1".into(), "l2".into()]);
    acc.add_section("B", vec!["hidden".into()]);
    acc.toggle(0);
    let theme = oasis_ui::theme::Theme::dark();
    let fs = theme.font_size_md;
    let ops = acc.draw(&theme, 0, 0, 100, 10);
    let expected = vec![
        DrawOp::FillRect { x: 0, y: 0, w: 100, h: 24, color: theme.accent_subtle },
        DrawOp::Text { text: "-".into(), x: 8, y: 7, font_size: fs, color: theme.text_primary },
        DrawOp::Text { text: "A".into(), x: 24, y: 7, font_size: fs, color: theme.text_primary },
        DrawOp::Text { text: "l1".into(), x: 24, y: 27, font_size: fs, color: theme.text_secondary },
        DrawOp::Text { text: "l2".into(), x: 24, y: 43, font_size: fs, color: theme.text_secondary },
        DrawOp::FillRect { x: 0, y: 56, w: 100, h: 24, color: theme.surface },
        DrawOp::Line { x1: 0, y1: 56, x2: 100, y2: 56, width: 1, color: theme.border_subtle },
        DrawOp::Text { text: "+".into(), x: 8, y: 63, font_size: fs, color: theme.text_primary },
        DrawOp::Text { text: "B".into(), x: 24, y: 63, font_size: fs, color: theme.text_primary },
        DrawOp::Line { x1: 0, y1: 80, x2: 100, y2: 80, width: 1, color: theme.border_subtle },
    ];
    assert_eq!(ops, expected);
}
