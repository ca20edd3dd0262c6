use oasis_ui::list_view::ListView;
use oasis_ui::draw::DrawOp;

fn numbered(n: usize) -> Vec<String> {
    (0..n).map(|i| i.to_string()).collect()
}

#[test]
fn new_defaults() {
    let lv = ListView::new(vec!["a".to_string(), "b".to_string()], 20);
    assert_eq!(lv.items.len(), 2);
    assert_eq!(lv.item_height, 20);
    assert_eq!(lv.scroll_offset, 0);
    assert!(lv.selected.is_none());
}

#[test]
fn item_height_minimum_one() {
    let lv = ListView::new(vec!["x".to_string()], 0);
    assert_eq!(lv.item_height, 1);
}

#[test]
fn content_height_empty() {
    let lv: ListView<String> = ListView::new(vec![], 20);
    assert_eq!(lv.content_height(), 0);
}

#[test]
fn content_height_multiple() {
    let lv = ListView::new(numbered(5), 30);
    assert_eq!(lv.content_height(), 150);
}

#[test]
fn scroll_to_below_viewport() {
    let mut lv = ListView::new(numbered(10), 20);
    // Viewport is 60px tall, scroll to item 5 (at y=100).
    lv.scroll_to(5, 60);
    // Item 5 bottom = 120, should scroll so it's visible.
    assert!(lv.scroll_offset > 0);
    assert!(lv.scroll_offset <= 100);
}

#[test]
fn scroll_to_above_viewport() {
    let mut lv = ListView::new(numbered(10), 20);
    lv.scroll_offset = 100;
    // Scroll to item 1 (at y=20), which is above current viewport.
    lv.scroll_to(1, 60);
    assert_eq!(lv.scroll_offset, 20);
}

#[test]
fn scroll_to_already_visible() {
    let mut lv = ListView::new(numbered(10), 20);
    // Item 0 is at y=0, viewport starts at 0, height 100 -- already visible.
    lv.scroll_to(0, 100);
    assert_eq!(lv.scroll_offset, 0);
}

#[test]
fn selected_index() {
    let mut lv = ListView::new(numbered(3), 20);
    lv.selected = Some(2);
    assert_eq!(lv.selected, Some(2));
}

#[test]
fn content_height_calculation() {
    let lv = ListView::new(numbered(7), 15);
    assert_eq!(lv.content_height(), 7 * 15);
}

#[test]
fn scroll_to_clamps_range() {
    let mut lv = ListView::new(numbered(5), 20);
    // Scroll to an index way beyond the list.
    lv.scroll_to(100, 60);
    // scroll_offset should not go negative and should be bounded
    // by the item_y calculation (100 * 20 = 2000, minus viewport).
    assert!(lv.scroll_offset >= 0);
}

#[test]
fn draw_at_clips_and_places_rows_with_selection() {
    let mut lv = ListView::new(vec!["a", "b", "c", "d"], 10);
    lv.selected = Some(1);
    lv.scroll_offset = 5;
    let theme = oasis_ui::theme::Theme::dark();
    let ops = lv.draw_at(&theme, 0, 0, 50, 20);
    let expected = vec![
        DrawOp::PushClip { x: 0, y: 0, w: 50, h: 20 },
        DrawOp::Item { index: 0, x: 0, y: -5, w: 50, h: 10, selected: false },
        DrawOp::FillRect { x: 0, y: 5, w: 50, h: 10, color: theme.accent_subtle },
        DrawOp::Item { index: 1, x: 0, y: 5, w: 50, h: 10, selected: true },
        DrawOp::Item { index: 2, x: 0, y: 15, w: 50, h: 10, selected: false },
        DrawOp::Item { index: 3, x: 0, y: 25, w: 50, h: 10, selected: false },
        DrawOp::PopClip,
    ];
    assert_eq!(ops, expected);
}
