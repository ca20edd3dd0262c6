use oasis_ui::context_menu::{ContextMenu, MenuItem};
use oasis_ui::draw::{DrawOp, ShadowKind};



/// Build a sample menu with mixed items.
fn sample_items() -> Vec<MenuItem> {
    vec![
        MenuItem::action("Cut"),
        MenuItem::action("Copy"),
        MenuItem::action_disabled("Paste"),
        MenuItem::separator(),
        MenuItem::submenu(
            "More",
            vec![MenuItem::action("Sub A"), MenuItem::action("Sub B")],
        ),
    ]
}

// -- Construction --

#[test]
fn new_creates_hidden_menu() {
    let menu = ContextMenu::new(sample_items());
    assert!(!menu.is_visible());
    assert_eq!(menu.items.len(), 5);
    assert!(menu.selected_index.is_none());
    assert!(menu.open_submenu.is_none());
}

// -- Show / Hide --

#[test]
fn show_makes_visible_at_position() {
    let mut menu = ContextMenu::new(sample_items());
    menu.show(100, 200);
    assert!(menu.is_visible());
    assert_eq!(menu.x, 100);
    assert_eq!(menu.y, 200);
    assert!(menu.selected_index.is_none());
}

#[test]
fn hide_clears_state() {
    let mut menu = ContextMenu::new(sample_items());
    menu.show(50, 60);
    menu.navigate_down();
    menu.hide_menu();
    assert!(!menu.is_visible());
    assert!(menu.selected_index.is_none());
    assert!(menu.open_submenu.is_none());
}

// -- Navigation --

#[test]
fn navigate_down_selects_first_item() {
    let mut menu = ContextMenu::new(sample_items());
    menu.navigate_down();
    assert_eq!(menu.selected_index, Some(0));
}

#[test]
fn navigate_down_skips_separator() {
    let mut menu = ContextMenu::new(sample_items());
    // Items: 0=Cut, 1=Copy, 2=Paste(disabled), 3=Separator, 4=More(submenu)
    // Navigate to index 2 (Paste disabled), then down should skip separator
    // to index 4 (More).
    menu.selected_index = Some(2);
    menu.navigate_down();
    // Index 3 is separator -> skip to 4
    assert_eq!(menu.selected_index, Some(4));
}

#[test]
fn navigate_down_skips_disabled_and_separator() {
    let items = vec![
        MenuItem::action("A"),
        MenuItem::separator(),
        MenuItem::action_disabled("B"),
        MenuItem::action("C"),
    ];
    let mut menu = ContextMenu::new(items);
    menu.selected_index = Some(0);
    menu.navigate_down();
    // Should skip separator (1) and disabled (2), land on C (3).
    assert_eq!(menu.selected_index, Some(3));
}

#[test]
fn navigate_up_wraps_to_last() {
    let mut menu = ContextMenu::new(sample_items());
    // From nothing, up should wrap to last selectable item.
    menu.navigate_up();
    // Last item is index 4 (submenu "More"), which is selectable.
    assert_eq!(menu.selected_index, Some(4));
}

#[test]
fn navigate_up_skips_separator() {
    let mut menu = ContextMenu::new(sample_items());
    menu.selected_index = Some(4);
    menu.navigate_up();
    // Index 3 is separator -> skip. Index 2 is disabled -> skip.
    // Index 1 is "Copy" (enabled) -> select.
    assert_eq!(menu.selected_index, Some(1));
}

#[test]
fn navigate_empty_menu() {
    let mut menu = ContextMenu::new(vec![]);
    menu.navigate_down();
    assert!(menu.selected_index.is_none());
    menu.navigate_up();
    assert!(menu.selected_index.is_none());
}

// -- Activate --

#[test]
fn activate_returns_action_index() {
    let mut menu = ContextMenu::new(sample_items());
    menu.selected_index = Some(0); // "Cut"
    let result = menu.activate();
    assert_eq!(result, Some(0));
}

#[test]
fn activate_second_action() {
    let mut menu = ContextMenu::new(sample_items());
    menu.selected_index = Some(1); // "Copy"
    let result = menu.activate();
    assert_eq!(result, Some(1));
}

#[test]
fn activate_disabled_returns_none() {
    let mut menu = ContextMenu::new(sample_items());
    menu.selected_index = Some(2); // "Paste" (disabled)
    let result = menu.activate();
    assert!(result.is_none());
}

#[test]
fn activate_separator_returns_none() {
    let mut menu = ContextMenu::new(sample_items());
    menu.selected_index = Some(3); // Separator
    let result = menu.activate();
    assert!(result.is_none());
}

#[test]
fn activate_submenu_toggles_open() {
    let mut menu = ContextMenu::new(sample_items());
    menu.selected_index = Some(4); // "More" submenu
    let result = menu.activate();
    assert!(result.is_none());
    assert_eq!(menu.open_submenu, Some(4));
    // Activate again to close.
    let result = menu.activate();
    assert!(result.is_none());
    assert!(menu.open_submenu.is_none());
}

#[test]
fn activate_nothing_selected() {
    let mut menu = ContextMenu::new(sample_items());
    let result = menu.activate();
    assert!(result.is_none());
}

// -- MenuItem helpers --

#[test]
fn menu_item_constructors() {
    let a = MenuItem::action("Open");
    assert!(matches!(a, MenuItem::Action { label, enabled: true } if label == "Open"));

    let d = MenuItem::action_disabled("Delete");
    assert!(matches!(d, MenuItem::Action { label, enabled: false } if label == "Delete"));

    let s = MenuItem::separator();
    assert!(matches!(s, MenuItem::Separator));

    let sub = MenuItem::submenu("Sub", vec![MenuItem::action("X")]);
    assert!(
        matches!(sub, MenuItem::Submenu { label, items } if label == "Sub" && items.len() == 1)
    );
}

#[test]
fn is_selectable_logic() {
    assert!(MenuItem::action("A").is_selectable());
    assert!(!MenuItem::action_disabled("B").is_selectable());
    assert!(!MenuItem::separator().is_selectable());
    assert!(MenuItem::submenu("C", vec![]).is_selectable());
}

// -- selected_item --

#[test]
fn selected_item_returns_correct_item() {
    let mut menu = ContextMenu::new(sample_items());
    assert!(menu.selected_item().is_none());
    menu.selected_index = Some(1);
    let item = menu.selected_item().unwrap();
    assert!(matches!(item, MenuItem::Action { label, .. } if label == "Copy"));
}

/// Label widths of `sample_items` in an 8-pixel bitmap font.
fn sample_widths() -> Vec<u32> {
    vec![3 * 8, 4 * 8, 5 * 8, 0, 4 * 8]
}

#[test]
fn dismiss_outside_click() {
    let mut menu = ContextMenu::new(sample_items());
    menu.show(100, 100);
    assert!(menu.dismiss_on_click(&sample_widths(), 8, 8, 0, 0));
}

#[test]
fn no_dismiss_inside_click() {
    let mut menu = ContextMenu::new(sample_items());
    menu.show(10, 10);
    assert!(!menu.dismiss_on_click(&sample_widths(), 8, 8, 15, 15));
}

#[test]
fn dismiss_when_hidden_returns_false() {
    let menu = ContextMenu::new(sample_items());
    assert!(!menu.dismiss_on_click(&sample_widths(), 8, 8, 0, 0));
}

#[test]
fn draw_ops_lays_out_rows_separators_and_submenu_arrow() {
    let mut menu = ContextMenu::new(vec![
        MenuItem::action("Cut"),
        MenuItem::separator(),
        MenuItem::submenu("More", Vec::new()),
    ]);
    menu.show(10, 10);
    menu.selected_index = Some(0);
    let theme = oasis_ui::theme::Theme::dark();
    let r = theme.border_radius_md;
    let fs = theme.font_size_md;
    let ops = menu.draw(&theme, 10, 10, 100, 47, 10, 8);
    let expected = vec![
        DrawOp::Shadow { x: 10, y: 10, w: 100, h: 47, radius: r, kind: ShadowKind::Dropdown },
        DrawOp::FillRoundedRect { x: 10, y: 10, w: 100, h: 47, radius: r, color: theme.surface },
        DrawOp::StrokeRoundedRect { x: 10, y: 10, w: 100, h: 47, radius: r, width: 1, color: theme.border_subtle },
        DrawOp::FillRect { x: 11, y: 14, w: 98, h: 16, color: theme.accent_subtle },
        DrawOp::TextEllipsis { text: "Cut".into(), x: 16, y: 17, font_size: fs, color: theme.text_primary, max_w: 88 },
        DrawOp::Line { x1: 16, y1: 33, x2: 104, y2: 33, width: 1, color: theme.border_subtle },
        DrawOp::TextEllipsis { text: "More".into(), x: 16, y: 40, font_size: fs, color: theme.text_primary, max_w: 82 },
        DrawOp::Text { text: "\u{25B6}".into(), x: 96, y: 40, font_size: fs, color: theme.text_secondary },
    ];
    assert_eq!(ops, expected);
}

#[test]
fn draw_ops_hidden_menu_draws_nothing() {
    let menu = ContextMenu::new(vec![MenuItem::action("Cut")]);
    let theme = oasis_ui::theme::Theme::dark();
    assert!(menu.draw(&theme, 0, 0, 100, 30, 10, 8).is_empty());
}
