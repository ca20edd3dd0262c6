use oasis_ui::table::{Column, SortDirection, Table};
use oasis_ui::draw::DrawOp;



fn sample_table() -> Table {
    let cols = vec![
        Column::new("Name", 80),
        Column::new("Size", 60),
        Column::new("Type", 60),
    ];
    let mut t = Table::new(cols);
    t.add_row(vec!["file.txt".into(), "1024".into(), "text".into()]);
    t.add_row(vec!["img.png".into(), "2048".into(), "image".into()]);
    t.add_row(vec!["doc.pdf".into(), "512".into(), "pdf".into()]);
    t
}

#[test]
fn table_new_defaults() {
    let t = sample_table();
    assert_eq!(t.columns.len(), 3);
    assert_eq!(t.rows.len(), 3);
    assert_eq!(t.selected_row, None);
    assert!(!t.disabled);
}

#[test]
fn select_next_prev() {
    let mut t = sample_table();
    t.select_next();
    assert_eq!(t.selected_row, Some(0));
    t.select_next();
    assert_eq!(t.selected_row, Some(1));
    t.select_prev();
    assert_eq!(t.selected_row, Some(0));
    t.select_prev();
    assert_eq!(t.selected_row, Some(0)); // clamp at 0
}

#[test]
fn select_next_clamps_at_end() {
    let mut t = sample_table();
    for _ in 0..10 {
        t.select_next();
    }
    assert_eq!(t.selected_row, Some(2));
}

#[test]
fn table_select_disabled_noop() {
    let mut t = sample_table();
    t.disabled = true;
    t.select_next();
    assert_eq!(t.selected_row, None);
}

#[test]
fn sort_ascending_then_descending() {
    let mut t = sample_table();
    t.sort_by_column(0);
    assert_eq!(t.sort, Some((0, SortDirection::Ascending)));
    assert_eq!(t.rows[0][0], "doc.pdf");

    t.sort_by_column(0);
    assert_eq!(t.sort, Some((0, SortDirection::Descending)));
    assert_eq!(t.rows[0][0], "img.png");
}

#[test]
fn sort_out_of_bounds_noop() {
    let mut t = sample_table();
    t.sort_by_column(10);
    assert_eq!(t.sort, None);
}

#[test]
fn ensure_visible_scrolls() {
    let mut t = sample_table();
    // Add more rows to trigger scrolling.
    for i in 0..20 {
        t.add_row(vec![format!("f{i}"), "0".into(), "x".into()]);
    }
    t.selected_row = Some(20);
    t.ensure_visible(60); // ~3 rows visible
    assert!(t.scroll_offset > 0);
}

#[test]
fn draw_ops_header_with_sort_marker_and_visible_rows() {
    let mut t = Table::new(vec![Column::new("Name", 0), Column::new("Size", 60)]);
    t.add_row(vec!["a".into(), "1".into()]);
    t.add_row(vec!["b".into(), "2".into()]);
    t.add_row(vec!["c".into(), "3".into()]);
    t.selected_row = Some(1);
    t.sort = Some((0, SortDirection::Ascending));
    let theme = oasis_ui::theme::Theme::dark();
    let fs = theme.font_size_sm;
    let ops = t.draw(&theme, 0, 0, 200, 60, 10);
    let expected = vec![
        DrawOp::FillRect { x: 0, y: 0, w: 200, h: 20, color: theme.surface },
        DrawOp::StrokeRect { x: 0, y: 0, w: 200, h: 20, width: 1, color: theme.border },
        DrawOp::Text { text: "Name ^".into(), x: 4, y: 5, font_size: fs, color: theme.text_primary },
        DrawOp::Text { text: "Size".into(), x: 144, y: 5, font_size: fs, color: theme.text_primary },
        DrawOp::Text { text: "a".into(), x: 4, y: 24, font_size: fs, color: theme.text_primary },
        DrawOp::Text { text: "1".into(), x: 144, y: 24, font_size: fs, color: theme.text_primary },
        DrawOp::FillRect { x: 0, y: 37, w: 200, h: 1, color: theme.border },
        DrawOp::FillRect { x: 0, y: 38, w: 200, h: 18, color: theme.accent },
        DrawOp::Text { text: "b".into(), x: 4, y: 42, font_size: fs, color: theme.background },
        DrawOp::Text { text: "2".into(), x: 144, y: 42, font_size: fs, color: theme.background },
        DrawOp::FillRect { x: 0, y: 55, w: 200, h: 1, color: theme.border },
    ];
    assert_eq!(ops, expected);
}

#[test]
fn draw_ops_scrolled_without_header_skips_hidden_rows() {
    let mut t = Table::new(vec![Column::new("Name", 50)]);
    t.add_row(vec!["a".into()]);
    t.add_row(vec!["b".into()]);
    t.show_header = false;
    t.scroll_offset = 1;
    let theme = oasis_ui::theme::Theme::dark();
    let ops = t.draw(&theme, 0, 0, 100, 100, 10);
    assert_eq!(ops.len(), 2);
    assert_eq!(
        ops[0],
        DrawOp::Text { text: "b".into(), x: 4, y: 4, font_size: theme.font_size_sm, color: theme.text_primary }
    );
}
