use oasis_ui::color::Color;
use oasis_ui::draw::DrawOp;
use oasis_ui::menu_bar::{Menu, MenuBar, MenuEntry, MenuHit, MenuStyle};



fn demo_bar() -> MenuBar {
    MenuBar::new(vec![
        Menu::new(
            "File",
            vec![
                MenuEntry::action("New", "file.new"),
                MenuEntry::action("Save", "file.save").with_shortcut("Ctrl+S"),
                MenuEntry::Separator,
                MenuEntry::action("Exit", "file.exit"),
            ],
        ),
        Menu::new(
            "Edit",
            vec![
                MenuEntry::action("Undo", "edit.undo").with_shortcut("Ctrl+Z"),
                MenuEntry::action("Redo", "edit.redo").disabled(),
            ],
        ),
    ])
}

#[test]
fn click_label_returns_label_hit() {
    let bar = demo_bar();
    // Bar at (0, 20), width 400, height 18. First label starts
    // at x=6; "File" is 4 chars → width ≈ 4*7 + 16 = 44.
    let hit = bar.hit_test(10, 30, 0, 20, 400, 18);
    assert_eq!(hit, MenuHit::Label(0));
}

#[test]
fn click_second_label() {
    let bar = demo_bar();
    // "File" label ends around x=6+44=50. "Edit" starts there.
    let hit = bar.hit_test(60, 30, 0, 20, 400, 18);
    assert_eq!(hit, MenuHit::Label(1));
}

#[test]
fn click_on_open_dropdown_item() {
    let mut bar = demo_bar();
    bar.open = Some(0);
    // First item (New) starts at y = bar_y + bar_h + 4 = 42.
    // Each item is 20px tall.
    let hit = bar.hit_test(20, 50, 0, 20, 400, 18);
    match hit {
        MenuHit::Item { id } => assert_eq!(id, "file.new"),
        other => panic!("expected Item, got {other:?}"),
    }
}

#[test]
fn click_on_disabled_item_is_noop() {
    let mut bar = demo_bar();
    bar.open = Some(1);
    // Edit menu: Undo (enabled, 20px), Redo (disabled, next 20px).
    // Dropdown starts at x = 6 + 44 = 50. y=bar_y+bar_h+4=42,
    // redo at y=62.
    let hit = bar.hit_test(60, 70, 0, 20, 400, 18);
    assert_eq!(hit, MenuHit::NoOp);
}

#[test]
fn click_outside_closes() {
    let bar = demo_bar();
    let hit = bar.hit_test(500, 500, 0, 20, 400, 18);
    assert_eq!(hit, MenuHit::Outside);
}

#[test]
fn hover_tracks_item() {
    let mut bar = demo_bar();
    bar.open = Some(0);
    bar.pointer_move(20, 50, 0, 20, 18);
    assert_eq!(bar.hovered_item, Some(0)); // "New" is item 0
    bar.pointer_move(20, 500, 0, 20, 18);
    assert_eq!(bar.hovered_item, None);
}

#[test]
fn close_resets_state() {
    let mut bar = demo_bar();
    bar.open = Some(0);
    bar.hovered_item = Some(2);
    bar.close();
    assert!(!bar.is_open());
    assert_eq!(bar.hovered_item, None);
}

#[test]
fn menu_entry_action_id() {
    let action = MenuEntry::action("Save", "file.save");
    assert_eq!(action.action_id(), Some("file.save"));
    let disabled = MenuEntry::action("X", "x").disabled();
    assert_eq!(disabled.action_id(), None);
    let sep = MenuEntry::Separator;
    assert_eq!(sep.action_id(), None);
}

#[test]
fn menu_style_default_colors() {
    let s = MenuStyle::default();
    assert_eq!(s.bar_bg, Color::rgb(240, 240, 240));
    assert_eq!(s.label_hot_bg, Color::rgb(49, 106, 197));
    assert_eq!(s.item_disabled_text, Color::rgb(150, 150, 150));
    assert_eq!(s.separator, Color::rgb(170, 170, 170));
    assert_eq!(s.font_size, 11);
}

#[test]
fn draw_dropdown_draws_bezel_hot_row_shortcut_and_separator() {
    let mut bar = MenuBar::new(vec![Menu::new(
        "File",
        vec![
            MenuEntry::action("New", "file.new"),
            MenuEntry::action("Save", "file.save").with_shortcut("Ctrl+S"),
            MenuEntry::Separator,
            MenuEntry::action("Exit", "file.exit").disabled(),
        ],
    )]);
    bar.open = Some(0);
    bar.hovered_item = Some(0);
    let st = MenuStyle::default();
    let ops = bar.draw_dropdown(0, 0, 20, &st, &vec![0, 40, 0, 0]);
    let expected = vec![
        DrawOp::FillRect { x: 6, y: 20, w: 130, h: 74, color: st.dropdown_bg },
        DrawOp::FillRect { x: 6, y: 20, w: 130, h: 1, color: st.dropdown_border_light },
        DrawOp::FillRect { x: 6, y: 20, w: 1, h: 74, color: st.dropdown_border_light },
        DrawOp::FillRect { x: 6, y: 93, w: 130, h: 1, color: st.dropdown_border_dark },
        DrawOp::FillRect { x: 135, y: 20, w: 1, h: 74, color: st.dropdown_border_dark },
        DrawOp::FillRect { x: 8, y: 24, w: 126, h: 20, color: st.item_hot_bg },
        DrawOp::Text { text: "New".into(), x: 28, y: 28, font_size: 11, color: st.item_hot_text },
        DrawOp::Text { text: "Save".into(), x: 28, y: 48, font_size: 11, color: st.item_text },
        DrawOp::Text { text: "Ctrl+S".into(), x: 74, y: 48, font_size: 11, color: st.item_text },
        DrawOp::FillRect { x: 10, y: 67, w: 122, h: 1, color: st.separator },
        DrawOp::Text { text: "Exit".into(), x: 28, y: 74, font_size: 11, color: st.item_disabled_text },
    ];
    assert_eq!(ops, expected);
}

#[test]
fn draw_dropdown_closed_draws_nothing() {
    let bar = MenuBar::new(vec![Menu::new("File", vec![MenuEntry::action("New", "file.new")])]);
    assert!(bar.draw_dropdown(0, 0, 20, &MenuStyle::default(), &vec![0]).is_empty());
}

#[test]
fn draw_bar_fills_bar_and_highlights_open_title() {
    let mut bar = MenuBar::new(vec![
        Menu::new("File", vec![MenuEntry::action("New", "file.new")]),
        Menu::new("Edit", vec![MenuEntry::action("Copy", "edit.copy")]),
    ]);
    bar.open = Some(1);
    let st = MenuStyle::default();
    let ops = bar.draw_bar(0, 0, 200, 20, &st);
    let expected = vec![
        DrawOp::FillRect { x: 0, y: 0, w: 200, h: 20, color: st.bar_bg },
        DrawOp::FillRect { x: 0, y: 19, w: 200, h: 1, color: st.bar_border },
        DrawOp::Text { text: "File".into(), x: 14, y: 4, font_size: 11, color: st.label_text },
        DrawOp::FillRect { x: 50, y: 2, w: 44, h: 16, color: st.label_hot_bg },
        DrawOp::Text { text: "Edit".into(), x: 58, y: 4, font_size: 11, color: st.label_hot_text },
    ];
    assert_eq!(ops, expected);
}
