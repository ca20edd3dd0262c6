use oasis_ui::color::Color;
use oasis_ui::draw::{draw_focus_ring, draw_focus_ring_themed, DrawOp};
use oasis_ui::focus::{FocusAction, FocusManager, FocusStyle, Rect};
use oasis_ui::button::{Button, ButtonState, ButtonStyle};
use oasis_ui::checkbox::Checkbox;
use oasis_ui::context_menu::{ContextMenu, MenuItem};
use oasis_ui::date_picker::{days_in_month, first_dow, is_leap_year, month_name, DatePicker};
use oasis_ui::dropdown::Dropdown;
use oasis_ui::flex::{ComputedRect, FlexChild, FlexLayout};
use oasis_ui::icon::{Icon, IconAtlas};
use oasis_ui::input_field::InputField;
use oasis_ui::layout::{cached_measure, MeasureCache, Padding, Widget};
use oasis_ui::list_view::ListView;
use oasis_ui::modal::{button_lefts, panel_rect};
use oasis_ui::menu_bar::{Menu, MenuBar, MenuEntry, MenuHit};
use oasis_ui::panel::Panel;
use oasis_ui::radio::RadioGroup;
use oasis_ui::rich_text::{RichText, Span};
use oasis_ui::slider::{key_step, Orientation};
use oasis_ui::spinner::{Spinner, SpinnerStyle};
use oasis_ui::split_pane::{PaneId, SplitOrientation, SplitPane};
use oasis_ui::styles::ToastLevel;
use oasis_ui::tab_bar::TabBar;
use oasis_ui::table::{str_less, Column, SortDirection, Table};
use oasis_ui::theme::{TextDirection, Theme};
use oasis_ui::toast::ToastStack;
use oasis_ui::tree_view::{last_at_depth, TreeView};
use oasis_ui::usb_descriptors::{
    config_descriptor, copy_prefix, device_descriptor, endpoint_descriptors, interface_descriptor,
    TOTAL_LEN,
};

fn strings(xs: &[&str]) -> Vec<String> {
    xs.iter().map(|s| s.to_string()).collect()
}

#[test]
fn sort_orders_rows_and_keeps_them() {
    let mut t = Table::new(vec![Column::new("Name", 80), Column::new("Size", 60)]);
    t.add_row(strings(&["file.txt", "1024"]));
    t.add_row(strings(&["img.png", "2048"]));
    t.add_row(strings(&["doc.pdf", "512"]));
    t.add_row(strings(&["a.bin", "1024"]));
    t.sort_by_column(1);
    let sizes: Vec<&str> = t.rows.iter().map(|r| r[1].as_str()).collect();
    // Text order, not numeric order; equal keys keep their order.
    assert_eq!(sizes, vec!["1024", "1024", "2048", "512"]);
    assert_eq!(t.rows[0][0], "file.txt");
    assert_eq!(t.rows[1][0], "a.bin");
    let mut names: Vec<String> = t.rows.iter().map(|r| r[0].clone()).collect();
    names.sort();
    assert_eq!(names, strings(&["a.bin", "doc.pdf", "file.txt", "img.png"]));
    t.sort_by_column(1);
    assert_eq!(t.sort, Some((1, SortDirection::Descending)));
    let sizes: Vec<&str> = t.rows.iter().map(|r| r[1].as_str()).collect();
    assert_eq!(sizes, vec!["512", "2048", "1024", "1024"]);
}

#[test]
fn sort_short_rows_sort_first() {
    let mut t = Table::new(vec![Column::new("A", 10), Column::new("B", 10)]);
    t.add_row(strings(&["x", "b"]));
    t.add_row(strings(&["y"]));
    t.sort_by_column(1);
    assert_eq!(t.rows[0], strings(&["y"]));
}

#[test]
fn str_less_is_code_point_order() {
    assert!(str_less("abc", "abd"));
    assert!(str_less("ab", "abc"));
    assert!(!str_less("abc", "abc"));
    assert!(!str_less("b", "abc"));
    assert!(str_less("Z", "a"));
    assert!(str_less("", "a"));
}

#[test]
fn ensure_visible_exact_offset() {
    let mut t = Table::new(vec![Column::new("A", 10)]);
    for _ in 0..30 {
        t.add_row(strings(&["r"]));
    }
    assert_eq!(t.visible_rows(60), 2);
    t.selected_row = Some(20);
    t.ensure_visible(60);
    assert_eq!(t.scroll_offset, 19);
    t.selected_row = Some(3);
    t.ensure_visible(60);
    assert_eq!(t.scroll_offset, 3);
}

#[test]
fn tree_toggle_twice_restores() {
    let mut tv = TreeView::new();
    let r = tv.add_root("Root");
    let c = tv.add_child(r, "Child").unwrap();
    tv.add_child(c, "Leaf");
    tv.toggle(c);
    assert!(tv.roots[0].children[0].expanded);
    tv.toggle(c);
    assert!(!tv.roots[0].children[0].expanded);
}

#[test]
fn tree_collapse_all_shows_roots_only() {
    let mut tv = TreeView::new();
    let a = tv.add_root("A");
    let b = tv.add_root("B");
    let a1 = tv.add_child(a, "A1").unwrap();
    tv.add_child(a1, "A1x");
    tv.add_child(b, "B1");
    tv.expand_all();
    assert_eq!(tv.visible_nodes().len(), 5);
    tv.collapse_all();
    let ids: Vec<usize> = tv.visible_nodes().iter().map(|(id, _, _)| *id).collect();
    assert_eq!(ids, vec![a, b]);
}

#[test]
fn tree_add_child_to_missing_parent_changes_nothing() {
    let mut tv = TreeView::new();
    let a = tv.add_root("A");
    assert_eq!(tv.add_child(99, "X"), None);
    assert_eq!(tv.roots.len(), 1);
    assert!(tv.roots[0].children.is_empty());
    // The next identifier was not used up.
    assert_eq!(tv.add_root("B"), a + 1);
}

#[test]
fn tree_visible_rows_and_depths() {
    let mut tv = TreeView::new();
    let a = tv.add_root("A");
    let a1 = tv.add_child(a, "A1").unwrap();
    let a2 = tv.add_child(a, "A2").unwrap();
    let a1x = tv.add_child(a1, "A1x").unwrap();
    tv.expand(a);
    tv.expand(a1);
    let rows: Vec<(usize, usize)> = tv.visible_nodes().iter().map(|(id, _, d)| (*id, *d)).collect();
    assert_eq!(rows, vec![(a, 0), (a1, 1), (a1x, 2), (a2, 1)]);
    tv.select(a1x);
    tv.navigate_out();
    assert_eq!(tv.focused(), Some(a1));
    tv.navigate_down();
    assert_eq!(tv.focused(), Some(a1x));
}

#[test]
fn next_then_prev_month_returns() {
    let mut dp = DatePicker::new(2024, 12);
    dp.next_month();
    dp.prev_month();
    assert_eq!((dp.year, dp.month), (2024, 12));
    let mut dp = DatePicker::new(2024, 1);
    dp.prev_month();
    dp.next_month();
    assert_eq!((dp.year, dp.month), (2024, 1));
}

#[test]
fn first_dow_follows_month_lengths() {
    for year in [1900u16, 2000, 2023, 2024, 2025] {
        for month in 1u8..=12 {
            let (ny, nm) = if month == 12 { (year + 1, 1) } else { (year, month + 1) };
            assert_eq!(
                first_dow(ny, nm),
                (first_dow(year, month) + days_in_month(year, month)) % 7
            );
        }
    }
}

#[test]
fn calendar_rules() {
    assert!(is_leap_year(2000));
    assert!(!is_leap_year(1900));
    assert!(is_leap_year(2024));
    assert_eq!(days_in_month(2025, 0), 30);
    assert_eq!(days_in_month(2025, 13), 30);
    assert_eq!(month_name(0), "???");
    assert_eq!(month_name(12), "December");
    // Jan 1, 2024 was a Monday.
    assert_eq!(first_dow(2024, 1), 1);
}

#[test]
fn header_text_small_years() {
    assert_eq!(DatePicker::new(7, 1).header_text(), "January 7");
    assert_eq!(DatePicker::new(0, 13).header_text(), "December 0");
    assert_eq!(DatePicker::new(u16::MAX, 5).header_text(), "May 65535");
}

#[test]
fn selected_day_clamped_after_next_month() {
    let mut dp = DatePicker::new(2024, 1);
    dp.select_day(31);
    dp.next_month();
    assert_eq!(dp.selected_day, 29);
    dp.select_day(0);
    assert_eq!(dp.selected_day, 1);
}

#[test]
fn flex_children_follow_each_other() {
    let layout = FlexLayout::row().with_gap(3);
    let children = vec![
        FlexChild::fixed(10).with_margin(Padding::new(0, 2, 0, 1)),
        FlexChild::flex(1).with_margin(Padding::new(0, 0, 0, 4)),
        FlexChild::fixed(5),
    ];
    let r = layout.compute(100, 0, 60, 10, &children);
    // remaining = 60 - (2*3 + 10 + 3 + 4 + 5) = 32
    assert_eq!(r[0], ComputedRect { x: 101, y: 0, w: 10, h: 10 });
    assert_eq!(r[1], ComputedRect { x: 101 + 10 + 2 + 3 + 4, y: 0, w: 32, h: 10 });
    assert_eq!(r[2].x, r[1].x + 32 + 3);
}

#[test]
fn flex_shares_round_down_within_remaining() {
    let layout = FlexLayout::row();
    let children = vec![FlexChild::flex(1), FlexChild::flex(1), FlexChild::flex(1)];
    let r = layout.compute(0, 0, 100, 10, &children);
    assert_eq!((r[0].w, r[1].w, r[2].w), (33, 33, 33));
    assert!(r[0].w + r[1].w + r[2].w <= 100);
}

#[test]
fn menu_dropdown_dimensions_exact() {
    let menu = Menu::new(
        "File",
        vec![
            MenuEntry::action("New", "file.new"),
            MenuEntry::action("Save", "file.save").with_shortcut("Ctrl+S"),
            MenuEntry::Separator,
            MenuEntry::action("Exit", "file.exit"),
        ],
    );
    let bar = MenuBar::new(vec![menu.clone()]);
    // 22 + 4*7 + (16 + 6*7) + 22 = 130 wide; 4 + 20 + 20 + 6 + 20 + 4 = 74 tall.
    assert_eq!(bar.dropdown_dimensions(&menu), (130, 74));
    let small = Menu::new("X", vec![MenuEntry::action("A", "a")]);
    assert_eq!(bar.dropdown_dimensions(&small), (120, 28));
}

#[test]
fn menu_label_hits_match_layout() {
    let bar = MenuBar::new(vec![
        Menu::new("File", vec![]),
        Menu::new("Edit", vec![]),
    ]);
    for x in 0..120 {
        let hit = bar.hit_test(x, 5, 0, 0, 400, 18);
        let expected = if (6..50).contains(&x) {
            MenuHit::Label(0)
        } else if (50..94).contains(&x) {
            MenuHit::Label(1)
        } else {
            MenuHit::Outside
        };
        assert_eq!(hit, expected, "x = {x}");
    }
}

#[test]
fn menu_separator_rows_are_noop() {
    let mut bar = MenuBar::new(vec![Menu::new(
        "File",
        vec![MenuEntry::action("New", "n"), MenuEntry::Separator, MenuEntry::action("Quit", "q")],
    )]);
    bar.open = Some(0);
    // Rows: New at 22..42, separator 42..48, Quit 48..68 (bar 0..18, dropdown from 18).
    assert_eq!(bar.hit_test(20, 45, 0, 0, 400, 18), MenuHit::NoOp);
    assert_eq!(bar.hit_test(20, 50, 0, 0, 400, 18), MenuHit::Item { id: "q".to_string() });
    bar.pointer_move(20, 50, 0, 0, 18);
    assert_eq!(bar.hovered_item, Some(2));
}

#[test]
fn tabs_tile_the_bar() {
    let tb = TabBar::new(strings(&["A", "B", "C"]));
    let mut counts = [0u32; 3];
    for dx in 0..100 {
        counts[tb.tab_at(dx, 100).unwrap()] += 1;
    }
    assert_eq!(counts, [34, 33, 33]);
    let few = TabBar::new(strings(&["A", "B", "C", "D", "E"]));
    // 3 pixels for 5 tabs: the first three tabs are one pixel wide.
    assert_eq!(few.tab_at(0, 3), Some(0));
    assert_eq!(few.tab_at(2, 3), Some(2));
    assert_eq!(few.tab_at(3, 3), None);
}

#[test]
fn insert_then_backspace_restores_text() {
    let mut f = InputField::new();
    for ch in "abc".chars() {
        f.insert(ch);
    }
    f.cursor_pos = 1;
    f.insert('X');
    assert_eq!(f.text, "aXbc");
    f.backspace();
    assert_eq!(f.text, "abc");
    assert_eq!(f.cursor_pos, 1);
}

#[test]
fn cursor_past_end_appends() {
    let mut f = InputField::new();
    f.insert('a');
    f.cursor_pos = 10;
    f.insert('b');
    assert_eq!(f.text, "ab");
    assert_eq!(f.cursor_pos, 11);
    f.backspace();
    assert_eq!(f.text, "ab");
    assert_eq!(f.cursor_pos, 10);
}

#[test]
fn password_mask_counts_bytes() {
    let mut f = InputField::new();
    f.insert('\u{00E9}');
    f.password_mode = true;
    assert_eq!(f.display_text(), "**");
}

#[test]
fn checkbox_toggle_twice_restores() {
    let mut c = Checkbox::new("x", false);
    assert!(c.toggle());
    assert!(!c.toggle());
    c.disabled = true;
    assert!(!c.toggle());
}

#[test]
fn radio_next_then_prev_returns() {
    let mut r = RadioGroup::new(strings(&["a", "b", "c"]));
    for start in 0..3 {
        r.selected = start;
        r.select_next();
        r.select_prev();
        assert_eq!(r.selected, start);
    }
}

#[test]
fn dropdown_option_rows() {
    let mut d = Dropdown::new(strings(&["a", "b"]));
    assert_eq!(d.option_at(8, 20), None);
    d.toggle();
    assert_eq!(d.option_at(8, 13), None);
    assert_eq!(d.option_at(8, 14), Some(0));
    assert_eq!(d.option_at(8, 27), Some(0));
    assert_eq!(d.option_at(8, 28), Some(1));
    assert_eq!(d.option_at(8, 42), None);
    assert_eq!(d.option_at(8, -5), None);
}

#[test]
fn spinner_frames_exact() {
    let mut s = Spinner::new();
    s.tick(450);
    assert_eq!(s.frame_index(), 3);
    assert_eq!(s.current_char(), '\\');
    s.style = SpinnerStyle::Dots;
    assert_eq!(s.frame_index(), 0);
    s.style = SpinnerStyle::Bar;
    s.frame_duration_ms = 0;
    assert_eq!(s.frame_index(), 450 % 8);
}

#[test]
fn context_menu_size_exact() {
    let menu = ContextMenu::new(vec![
        MenuItem::action("Open"),
        MenuItem::separator(),
        MenuItem::submenu("More", vec![MenuItem::action("X")]),
    ]);
    // Widest label 32, padding 2*6, arrow 8 + 6; rows 14 + 7 + 14, padding 2*4.
    assert_eq!(menu.compute_size(&vec![32, 0, 32], 8, 8), (58, 43));
    let tiny = ContextMenu::new(vec![MenuItem::action("A")]);
    assert_eq!(tiny.compute_size(&vec![8], 8, 8), (40, 22));
}

#[test]
fn cached_measure_stores_widget_size() {
    let mut cache = MeasureCache::new();
    let dp = DatePicker::new(2025, 3);
    assert_eq!(dp.measure(10, 10), (140, 156));
    assert_eq!(cached_measure(&mut cache, 7, &dp, 300, 300), (140, 156));
    assert_eq!(cache.len(), 1);
    assert_eq!(cached_measure(&mut cache, 7, &dp, 300, 300), (140, 156));
    assert_eq!(cache.len(), 1);
}

#[test]
fn usb_descriptor_bytes() {
    let c = config_descriptor();
    assert_eq!(c.to_bytes(), vec![9, 2, 32, 0, 1, 1, 0, 0xC0, 0]);
    let i = interface_descriptor();
    let e = endpoint_descriptors(true);
    assert_eq!(e[0].to_bytes(), vec![7, 5, 0x81, 2, 0x00, 0x02, 0]);
    assert_eq!(endpoint_descriptors(false)[1].to_bytes(), vec![7, 5, 0x02, 2, 64, 0, 0]);
    let total = c.to_bytes().len() + i.to_bytes().len() + e[0].to_bytes().len() + e[1].to_bytes().len();
    assert_eq!(total, TOTAL_LEN as usize);
    let d = device_descriptor().to_bytes();
    assert_eq!(d.len(), 18);
    assert_eq!(&d[..4], &[18, 1, 0x00, 0x02]);
}

#[test]
fn copy_prefix_pads_and_truncates() {
    let mut dst = vec![0u8; 12];
    copy_prefix(&mut dst, &vec![1, 2, 3]);
    assert_eq!(dst, vec![1, 2, 3, 0, 0, 0, 0, 0, 0, 0, 0, 0]);
    let mut small = vec![9u8; 2];
    copy_prefix(&mut small, &vec![1, 2, 3]);
    assert_eq!(small, vec![1, 2]);
}

#[test]
fn list_scroll_to_shows_row_exactly() {
    let mut lv = ListView::new(strings(&["a"; 10]), 20);
    lv.scroll_to(5, 60);
    // Row 5 spans 100..120; its bottom becomes the viewport's bottom.
    assert_eq!(lv.scroll_offset, 60);
    lv.scroll_to(5, 60);
    assert_eq!(lv.scroll_offset, 60);
}

#[test]
fn list_visible_range_covers_viewport() {
    let mut lv = ListView::new(strings(&["a"; 10]), 20);
    lv.scroll_offset = 40;
    assert_eq!(lv.visible_range(60), (2, 7));
    lv.scroll_offset = -15;
    assert_eq!(lv.visible_range(60), (0, 5));
    lv.scroll_offset = 180;
    assert_eq!(lv.visible_range(60), (9, 10));
}

#[test]
fn toast_queue_keeps_newest_and_ages() {
    let mut stack = ToastStack::new();
    stack.show("a", ToastLevel::Info, 1);
    stack.show("b", ToastLevel::Warning, 3);
    stack.tick();
    // "a" expires; "b" ages by one frame.
    assert_eq!(stack.count(), 1);
    assert_eq!(stack.toasts()[0].message, "b");
    assert_eq!(stack.toasts()[0].ttl, 2);
    assert_eq!(stack.toasts()[0].total_ttl, 3);
    assert_eq!(stack.toasts()[0].entrance_frames, 1);
    for i in 0..6 {
        stack.show(&format!("t{i}"), ToastLevel::Info, 5);
    }
    assert_eq!(stack.count(), 7);
    assert_eq!(stack.visible_range(), (3, 7));
}

#[test]
fn rich_text_height_and_line_tops() {
    let mut rt = RichText::new();
    assert_eq!(rt.content_height(10), 0);
    rt.add_plain("one");
    assert_eq!(rt.content_height(10), 10);
    rt.add_plain("two");
    rt.add_plain("three");
    assert_eq!(rt.content_height(10), 34);
    assert_eq!(rt.line_y(5, 2, 10), 29);
    let mut s = Span::plain("x");
    assert_eq!(s.effective_font_size(14), 14);
    s.font_size = Some(20);
    assert_eq!(s.effective_font_size(14), 20);
}

#[test]
fn tab_rects_split_width() {
    let tb = TabBar::new(strings(&["A", "B", "C"]));
    assert_eq!(tb.tab_rect(0, 100), (0, 34));
    assert_eq!(tb.tab_rect(1, 100), (34, 33));
    assert_eq!(tb.tab_rect(2, 100), (67, 33));
}

#[test]
fn date_picker_grid_cells() {
    let dp = DatePicker::new(2025, 3);
    assert_eq!(first_dow(2025, 3), 6);
    assert_eq!(dp.day_cell(1), (6, 0));
    assert_eq!(dp.day_cell(2), (0, 1));
    assert_eq!(dp.day_cell(31), (1, 5));
}

#[test]
fn spinner_dots_and_bar_geometry() {
    let mut sp = Spinner::new();
    assert_eq!(sp.dot_alpha(0, false), 255);
    assert_eq!(sp.dot_alpha(1, false), 80);
    assert_eq!(sp.dot_alpha(0, true), 180);
    sp.style = SpinnerStyle::Bar;
    sp.elapsed_ms = 450;
    assert_eq!(sp.frame_index(), 3);
    assert_eq!(sp.bar_segment(100, false), (28, 25));
    assert_eq!(sp.bar_segment(100, true), (37, 25));
}

#[test]
fn modal_panel_and_buttons() {
    assert_eq!(panel_rect(0, 0, 480, 272, 16, 12), (100, 91, 280, 90));
    let lefts = button_lefts(&vec![30, 20], 368);
    assert_eq!(lefts, vec![288, 336]);
    assert!(button_lefts(&vec![], 10).is_empty());
}

#[test]
fn table_columns_share_remaining_width() {
    let mut t = Table::new(vec![Column::new("A", 50), Column::new("B", 0), Column::new("C", 0)]);
    assert_eq!(t.column_widths(151), vec![50, 50, 50]);
    assert_eq!(t.column_widths(40), vec![50, 0, 0]);
    t.sort = Some((1, SortDirection::Ascending));
    assert_eq!(t.header_label(1), "B ^");
    assert_eq!(t.header_label(0), "A");
    t.sort = Some((2, SortDirection::Descending));
    assert_eq!(t.header_label(2), "C v");
}

#[test]
fn tree_rows_closing_groups() {
    let mut tv = TreeView::new();
    let a = tv.add_root("A");
    tv.add_child(a, "B");
    tv.add_child(a, "C");
    tv.add_root("D");
    tv.expand(a);
    let rows = tv.visible_nodes();
    assert_eq!(last_at_depth(&rows), vec![false, true, true, true]);
}

#[test]
fn split_pane_rects_from_first_extent() {
    let sp = SplitPane::new(SplitOrientation::Horizontal);
    assert_eq!(sp.divider_width, 4);
    assert!(!sp.is_dragging());
    assert_eq!(sp.is_collapsed(), None);
    // Half of the 196 pixels the divider leaves.
    assert_eq!(sp.available(200), 196);
    assert_eq!(sp.first_rect(0, 0, 200, 100, 98), (0, 0, 98, 100));
    assert_eq!(sp.divider_rect(0, 0, 200, 100, 98), (98, 0, 4, 100));
    assert_eq!(sp.second_rect(0, 0, 200, 100, 98), (102, 0, 98, 100));

    let v = SplitPane::new(SplitOrientation::Vertical);
    assert_eq!(v.available(100), 96);
    assert_eq!(v.first_rect(0, 0, 200, 100, 48), (0, 0, 200, 48));
    assert_eq!(v.divider_rect(0, 0, 200, 100, 48), (0, 48, 200, 4));
    assert_eq!(v.second_rect(0, 0, 200, 100, 48), (0, 52, 200, 48));
}

#[test]
fn split_pane_collapse_and_drag() {
    let mut sp = SplitPane::new(SplitOrientation::Horizontal);
    sp.collapse(PaneId::First);
    assert_eq!(sp.is_collapsed(), Some(PaneId::First));
    assert_eq!(sp.first_rect(0, 0, 200, 100, 98), (0, 0, 0, 0));
    assert_eq!(sp.second_rect(0, 0, 200, 100, 98), (4, 0, 196, 100));
    assert_eq!(sp.divider_rect(0, 0, 200, 100, 98), (0, 0, 4, 100));
    sp.collapse(PaneId::Second);
    assert_eq!(sp.second_rect(0, 0, 200, 100, 98), (0, 0, 0, 0));
    assert_eq!(sp.divider_rect(0, 0, 200, 100, 98), (196, 0, 4, 100));
    sp.expand();
    assert_eq!(sp.is_collapsed(), None);
    sp.start_drag();
    assert!(sp.is_dragging());
    sp.end_drag();
    assert!(!sp.is_dragging());
}

#[test]
fn color_hex_strings() {
    assert_eq!(Color::rgb(255, 0, 0).hex_string(), "#FF0000");
    assert_eq!(Color::rgba(18, 171, 205, 7).hex_string(), "#12ABCD");
    assert_eq!(Color::black().hex_string(), "#000000");
    assert_eq!(Color::white().hex_string(), "#FFFFFF");
}

#[test]
fn slider_key_directions() {
    assert_eq!(key_step(Orientation::Horizontal, oasis_ui::input::Button::Right, false), 1);
    assert_eq!(key_step(Orientation::Horizontal, oasis_ui::input::Button::Left, false), -1);
    assert_eq!(key_step(Orientation::Vertical, oasis_ui::input::Button::Up, false), 1);
    assert_eq!(key_step(Orientation::Vertical, oasis_ui::input::Button::Down, false), -1);
    assert_eq!(key_step(Orientation::Vertical, oasis_ui::input::Button::Right, false), 0);
    assert_eq!(key_step(Orientation::Horizontal, oasis_ui::input::Button::Confirm, false), 0);
    assert_eq!(key_step(Orientation::Horizontal, oasis_ui::input::Button::Right, true), 0);
}

#[test]
fn button_and_panel_colors_from_theme() {
    let t = Theme::dark();
    let mut b = Button::primary("Go");
    assert_eq!(b.bg_color(&t), Some(t.accent));
    assert_eq!(b.text_color(&t), t.text_on_accent);
    b.state = ButtonState::Disabled;
    assert_eq!(b.bg_color(&t), Some(t.button_bg_disabled));
    assert_eq!(b.text_color(&t), t.text_disabled);
    let mut o = Button::new("x");
    o.style = ButtonStyle::Outline;
    assert_eq!(o.bg_color(&t), None);
    o.state = ButtonState::Hover;
    assert_eq!(o.bg_color(&t), Some(t.accent_subtle));
    assert_eq!(o.text_color(&t), t.text_primary);

    let p = Panel::themed(&t);
    assert_eq!(p.background, Some(t.surface));
    assert_eq!(p.border, Some((1, t.border)));
    assert_eq!(p.radius, 8);
    assert_eq!(p.elevation, 1);
    assert_eq!(p.padding, Padding::uniform(8));
    let d = Panel::default();
    assert!(d.background.is_none() && d.border.is_none());
    assert_eq!((d.radius, d.elevation), (0, 0));
}

#[test]
fn theme_text_direction() {
    let mut t = Theme::light();
    assert!(!t.is_rtl());
    assert_eq!(t.resolve_inline_padding(3, 9), (3, 9));
    t.text_direction = TextDirection::Rtl;
    assert!(t.is_rtl());
    assert_eq!(t.resolve_inline_padding(3, 9), (9, 3));
    t.text_direction = TextDirection::Auto;
    assert!(!t.is_rtl());
}

#[test]
fn icon_cells_in_atlas() {
    assert_eq!(Icon::Back.index(), 0);
    assert_eq!(Icon::Settings.index(), 8);
    assert_eq!(Icon::Play.index(), 31);
    assert_eq!(Icon::Memory.index(), 76);
    let atlas = IconAtlas::new(7, 16, 16);
    assert_eq!(atlas.source_rect(Icon::Settings), (128, 0, 16, 16));
    assert_eq!(atlas.source_rect(Icon::Play), (240, 16, 16, 16));
    assert_eq!(atlas.source_rect(Icon::Memory), (192, 64, 16, 16));
}

#[test]
fn icon_atlas_draw_blits_the_icon_cell() {
    let atlas = IconAtlas::new(7, 16, 8);
    let tint = Color::rgb(10, 20, 30);
    let (sx, sy, _, _) = atlas.source_rect(Icon::Back);
    assert_eq!(
        atlas.draw(Icon::Back, 5, 6, tint),
        DrawOp::Blit { texture: 7, sx, sy, sw: 16, sh: 16, x: 5, y: 6, w: 16, h: 16, tint }
    );
    assert_eq!(
        atlas.draw_scaled(Icon::Back, 5, 6, 32, tint),
        DrawOp::Blit { texture: 7, sx, sy, sw: 16, sh: 16, x: 5, y: 6, w: 32, h: 32, tint }
    );
}

#[test]
fn panel_draw_at_shadow_background_and_border() {
    let theme = Theme::dark();
    let p = Panel::themed(&theme);
    assert_eq!(
        p.draw_at(1, 2, 30, 40),
        vec![
            DrawOp::Shadow {
                x: 1,
                y: 2,
                w: 30,
                h: 40,
                radius: theme.border_radius_lg,
                kind: oasis_ui::draw::ShadowKind::Elevation(1),
            },
            DrawOp::FillRoundedRect { x: 1, y: 2, w: 30, h: 40, radius: theme.border_radius_lg, color: theme.surface },
            DrawOp::StrokeRoundedRect {
                x: 1,
                y: 2,
                w: 30,
                h: 40,
                radius: theme.border_radius_lg,
                width: 1,
                color: theme.border,
            },
        ]
    );
    assert!(Panel::default().draw_at(0, 0, 10, 10).is_empty());
}

#[test]
fn focus_indicator_only_for_the_focused_item() {
    let theme = Theme::dark();
    let mut fm = FocusManager::new(3);
    let style = FocusStyle::from_theme(&theme);
    assert!(fm.draw_indicator(0, &style, 10, 10, 20, 20).is_empty());
    fm.handle_action(FocusAction::TabNext);
    assert_eq!(fm.draw_indicator(1, &style, 10, 10, 20, 20), vec![style.draw(10, 10, 20, 20)]);
    assert!(fm.draw_indicator(0, &style, 10, 10, 20, 20).is_empty());
    assert_eq!(fm.draw_indicator_themed(1, &theme, 10, 10, 20, 20), vec![style.draw(10, 10, 20, 20)]);
}

#[test]
fn focus_ring_functions_use_two_pixel_ring() {
    let theme = Theme::dark();
    let b = Rect { x: 10, y: 10, w: 20, h: 20 };
    let c = Color::rgb(1, 2, 3);
    assert_eq!(
        draw_focus_ring(&b, c),
        DrawOp::StrokeRoundedRect { x: 8, y: 8, w: 24, h: 24, radius: 3, width: 2, color: c }
    );
    assert_eq!(
        draw_focus_ring_themed(&b, &theme),
        DrawOp::StrokeRoundedRect { x: 8, y: 8, w: 24, h: 24, radius: 3, width: 2, color: theme.accent }
    );
}
