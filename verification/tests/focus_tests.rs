use oasis_ui::color::Color;
use oasis_ui::focus::{
    FocusAction, FocusDir, FocusDirection, FocusEvent, FocusManager, FocusRing, FocusStyle,
    FocusableItem, Rect, SpatialFocusManager,
};
use oasis_ui::input::{Button, InputEvent};
use oasis_ui::theme::Theme;



#[test]
fn focus_new_defaults() {
    let f = FocusRing::new(5);
    assert_eq!(f.focused(), 0);
    assert_eq!(f.count(), 5);
    assert!(f.wrap);
}

#[test]
fn focus_new_empty() {
    let f = FocusRing::new(0);
    assert_eq!(f.focused(), 0);
    assert_eq!(f.count(), 0);
}

#[test]
fn is_focused() {
    let f = FocusRing::new(3);
    assert!(f.is_focused(0));
    assert!(!f.is_focused(1));
    assert!(!f.is_focused(2));
}

#[test]
fn set_focused_clamps() {
    let mut f = FocusRing::new(3);
    f.set_focused(10);
    assert_eq!(f.focused(), 2); // clamped to count-1
}

#[test]
fn set_focused_valid() {
    let mut f = FocusRing::new(3);
    f.set_focused(2);
    assert_eq!(f.focused(), 2);
}

#[test]
fn set_focused_empty_noop() {
    let mut f = FocusRing::new(0);
    f.set_focused(5);
    assert_eq!(f.focused(), 0);
}

#[test]
fn move_next_wraps() {
    let mut f = FocusRing::new(3);
    assert_eq!(f.move_focus(FocusDir::Next), 1);
    assert_eq!(f.move_focus(FocusDir::Next), 2);
    assert_eq!(f.move_focus(FocusDir::Next), 0); // wraps
}

#[test]
fn move_prev_wraps() {
    let mut f = FocusRing::new(3);
    assert_eq!(f.move_focus(FocusDir::Prev), 2); // wraps from 0
    assert_eq!(f.move_focus(FocusDir::Prev), 1);
    assert_eq!(f.move_focus(FocusDir::Prev), 0);
}

#[test]
fn move_next_no_wrap() {
    let mut f = FocusRing::new(3);
    f.wrap = false;
    f.set_focused(2);
    assert_eq!(f.move_focus(FocusDir::Next), 2); // stays at end
}

#[test]
fn move_prev_no_wrap() {
    let mut f = FocusRing::new(3);
    f.wrap = false;
    assert_eq!(f.move_focus(FocusDir::Prev), 0); // stays at start
}

#[test]
fn move_focus_empty_returns_zero() {
    let mut f = FocusRing::new(0);
    assert_eq!(f.move_focus(FocusDir::Next), 0);
    assert_eq!(f.move_focus(FocusDir::Prev), 0);
}

#[test]
fn move_focus_single_item() {
    let mut f = FocusRing::new(1);
    assert_eq!(f.move_focus(FocusDir::Next), 0); // wraps to same
    assert_eq!(f.move_focus(FocusDir::Prev), 0);
}

#[test]
fn focus_first_and_last() {
    let mut f = FocusRing::new(5);
    f.set_focused(3);
    f.focus_first();
    assert_eq!(f.focused(), 0);
    f.focus_last();
    assert_eq!(f.focused(), 4);
}

#[test]
fn focus_last_empty() {
    let mut f = FocusRing::new(0);
    f.focus_last();
    assert_eq!(f.focused(), 0);
}

#[test]
fn set_count_clamps_focused() {
    let mut f = FocusRing::new(5);
    f.set_focused(4);
    f.set_count(3);
    assert_eq!(f.focused(), 2); // clamped
    assert_eq!(f.count(), 3);
}

#[test]
fn set_count_to_zero() {
    let mut f = FocusRing::new(5);
    f.set_focused(3);
    f.set_count(0);
    assert_eq!(f.focused(), 0);
    assert_eq!(f.count(), 0);
}

#[test]
fn set_count_grow_preserves_focus() {
    let mut f = FocusRing::new(3);
    f.set_focused(2);
    f.set_count(10);
    assert_eq!(f.focused(), 2); // unchanged
}

#[test]
fn focus_dir_debug() {
    assert_eq!(format!("{:?}", FocusDir::Next), "Next");
    assert_eq!(format!("{:?}", FocusDir::Prev), "Prev");
}

#[test]
fn focus_ring_clone() {
    let f = FocusRing::new(3);
    let f2 = f.clone();
    assert_eq!(f.focused(), f2.focused());
    assert_eq!(f.count(), f2.count());
}

#[test]
fn sequential_navigation() {
    let mut f = FocusRing::new(4);
    // Forward through all items
    for expected in 1..=3 {
        assert_eq!(f.move_focus(FocusDir::Next), expected);
    }
    // Backward through all items
    for expected in (0..=2).rev() {
        assert_eq!(f.move_focus(FocusDir::Prev), expected);
    }
}

// -- Additional focus traversal tests --

#[test]
fn wrap_around_full_cycle_next() {
    let mut f = FocusRing::new(3);
    // 0 -> 1 -> 2 -> 0 -> 1 -> 2 -> 0
    let expected = [1, 2, 0, 1, 2, 0];
    for &e in &expected {
        assert_eq!(f.move_focus(FocusDir::Next), e);
    }
}

#[test]
fn wrap_around_full_cycle_prev() {
    let mut f = FocusRing::new(3);
    // 0 -> 2 -> 1 -> 0 -> 2 -> 1 -> 0
    let expected = [2, 1, 0, 2, 1, 0];
    for &e in &expected {
        assert_eq!(f.move_focus(FocusDir::Prev), e);
    }
}

#[test]
fn no_wrap_next_boundary_stays() {
    let mut f = FocusRing::new(5);
    f.wrap = false;
    f.set_focused(4);
    // At the end, Next should not move.
    assert_eq!(f.move_focus(FocusDir::Next), 4);
    assert_eq!(f.move_focus(FocusDir::Next), 4);
}

#[test]
fn no_wrap_prev_boundary_stays() {
    let mut f = FocusRing::new(5);
    f.wrap = false;
    f.set_focused(0);
    // At the beginning, Prev should not move.
    assert_eq!(f.move_focus(FocusDir::Prev), 0);
    assert_eq!(f.move_focus(FocusDir::Prev), 0);
}

#[test]
fn set_count_increase() {
    let mut f = FocusRing::new(3);
    f.set_focused(2);
    f.set_count(10);
    assert_eq!(f.count(), 10);
    assert_eq!(f.focused(), 2); // unchanged
}

#[test]
fn set_count_decrease_clamps_focus() {
    let mut f = FocusRing::new(10);
    f.set_focused(9);
    f.set_count(5);
    assert_eq!(f.focused(), 4);
}

#[test]
fn set_count_to_one() {
    let mut f = FocusRing::new(10);
    f.set_focused(5);
    f.set_count(1);
    assert_eq!(f.focused(), 0);
    assert_eq!(f.count(), 1);
}

#[test]
fn focus_first_from_middle() {
    let mut f = FocusRing::new(10);
    f.set_focused(5);
    f.focus_first();
    assert_eq!(f.focused(), 0);
}

#[test]
fn focus_last_from_first() {
    let mut f = FocusRing::new(10);
    f.focus_last();
    assert_eq!(f.focused(), 9);
}

#[test]
fn is_focused_after_movement() {
    let mut f = FocusRing::new(5);
    assert!(f.is_focused(0));
    f.move_focus(FocusDir::Next);
    assert!(!f.is_focused(0));
    assert!(f.is_focused(1));
}

#[test]
fn set_focused_to_zero() {
    let mut f = FocusRing::new(5);
    f.set_focused(3);
    f.set_focused(0);
    assert_eq!(f.focused(), 0);
}

#[test]
fn single_item_wrap_next_prev() {
    let mut f = FocusRing::new(1);
    f.wrap = true;
    assert_eq!(f.move_focus(FocusDir::Next), 0);
    assert_eq!(f.move_focus(FocusDir::Prev), 0);
}

#[test]
fn single_item_no_wrap_next_prev() {
    let mut f = FocusRing::new(1);
    f.wrap = false;
    assert_eq!(f.move_focus(FocusDir::Next), 0);
    assert_eq!(f.move_focus(FocusDir::Prev), 0);
}

#[test]
fn two_items_alternating() {
    let mut f = FocusRing::new(2);
    assert_eq!(f.move_focus(FocusDir::Next), 1);
    assert_eq!(f.move_focus(FocusDir::Next), 0);
    assert_eq!(f.move_focus(FocusDir::Prev), 1);
    assert_eq!(f.move_focus(FocusDir::Prev), 0);
}

#[test]
fn focus_dir_equality() {
    assert_eq!(FocusDir::Next, FocusDir::Next);
    assert_eq!(FocusDir::Prev, FocusDir::Prev);
    assert_ne!(FocusDir::Next, FocusDir::Prev);
}

#[test]
fn large_focus_ring() {
    let mut f = FocusRing::new(1000);
    f.set_focused(999);
    assert_eq!(f.focused(), 999);
    assert_eq!(f.move_focus(FocusDir::Next), 0); // wraps
}

#[test]
fn set_focused_exact_max() {
    let mut f = FocusRing::new(5);
    f.set_focused(4); // max valid
    assert_eq!(f.focused(), 4);
}

#[test]
fn set_focused_way_over_max() {
    let mut f = FocusRing::new(5);
    f.set_focused(1000);
    assert_eq!(f.focused(), 4);
}

// -- FocusManager tests --

#[test]
fn manager_new_defaults() {
    let fm = FocusManager::new(5);
    assert_eq!(fm.count(), 5);
    assert_eq!(fm.focused(), 0);
    assert!(!fm.active);
}

#[test]
fn manager_new_empty() {
    let fm = FocusManager::new(0);
    assert_eq!(fm.count(), 0);
    assert_eq!(fm.focused(), 0);
}

#[test]
fn manager_has_focus_inactive() {
    let fm = FocusManager::new(3);
    assert!(!fm.has_focus(0));
}

#[test]
fn manager_has_focus_active() {
    let mut fm = FocusManager::new(3);
    fm.active = true;
    assert!(fm.has_focus(0));
    assert!(!fm.has_focus(1));
}

#[test]
fn manager_tab_next() {
    let mut fm = FocusManager::new(3);
    assert_eq!(fm.handle_action(FocusAction::TabNext), 1);
    assert!(fm.active);
    assert_eq!(fm.handle_action(FocusAction::TabNext), 2);
    assert_eq!(fm.handle_action(FocusAction::TabNext), 0);
}

#[test]
fn manager_tab_prev() {
    let mut fm = FocusManager::new(3);
    assert_eq!(fm.handle_action(FocusAction::TabPrev), 2);
    assert_eq!(fm.handle_action(FocusAction::TabPrev), 1);
    assert_eq!(fm.handle_action(FocusAction::TabPrev), 0);
}

#[test]
fn manager_activate() {
    let mut fm = FocusManager::new(3);
    fm.handle_action(FocusAction::TabNext);
    let idx = fm.handle_action(FocusAction::Activate);
    assert_eq!(idx, 1);
}

#[test]
fn manager_home() {
    let mut fm = FocusManager::new(5);
    fm.handle_action(FocusAction::TabNext);
    fm.handle_action(FocusAction::TabNext);
    assert_eq!(fm.handle_action(FocusAction::Home), 0);
}

#[test]
fn manager_end() {
    let mut fm = FocusManager::new(5);
    assert_eq!(fm.handle_action(FocusAction::End), 4);
}

#[test]
fn manager_skip_disabled_next() {
    let mut fm = FocusManager::new(4);
    fm.set_enabled(1, false);
    fm.set_enabled(2, false);
    assert_eq!(fm.handle_action(FocusAction::TabNext), 3);
}

#[test]
fn manager_skip_disabled_prev() {
    let mut fm = FocusManager::new(4);
    fm.set_enabled(2, false);
    fm.set_enabled(3, false);
    assert_eq!(fm.handle_action(FocusAction::TabPrev), 1);
}

#[test]
fn manager_all_disabled_stays() {
    let mut fm = FocusManager::new(3);
    fm.set_enabled(0, false);
    fm.set_enabled(1, false);
    fm.set_enabled(2, false);
    let before = fm.focused();
    fm.handle_action(FocusAction::TabNext);
    assert_eq!(fm.focused(), before);
}

#[test]
fn manager_set_count_grows() {
    let mut fm = FocusManager::new(3);
    fm.set_count(5);
    assert_eq!(fm.count(), 5);
    assert!(fm.is_enabled(3));
    assert!(fm.is_enabled(4));
}

#[test]
fn manager_set_count_shrinks() {
    let mut fm = FocusManager::new(5);
    fm.ring_mut().set_focused(4);
    fm.set_count(3);
    assert_eq!(fm.count(), 3);
    assert_eq!(fm.focused(), 2);
}

#[test]
fn manager_set_focused_enabled() {
    let mut fm = FocusManager::new(5);
    fm.set_focused(3);
    assert_eq!(fm.focused(), 3);
    assert!(fm.active);
}

#[test]
fn manager_set_focused_disabled_rejected() {
    let mut fm = FocusManager::new(5);
    fm.set_enabled(3, false);
    fm.set_focused(3);
    assert_eq!(fm.focused(), 0);
}

#[test]
fn manager_deactivate() {
    let mut fm = FocusManager::new(3);
    fm.active = true;
    fm.deactivate();
    assert!(!fm.active);
    assert!(!fm.has_focus(0));
}

#[test]
fn manager_is_enabled_out_of_bounds() {
    let fm = FocusManager::new(3);
    assert!(!fm.is_enabled(10));
}

#[test]
fn manager_set_enabled_out_of_bounds_noop() {
    let mut fm = FocusManager::new(3);
    fm.set_enabled(10, false);
    assert_eq!(fm.count(), 3);
}

#[test]
fn manager_ring_access() {
    let fm = FocusManager::new(5);
    assert_eq!(fm.ring().count(), 5);
}

#[test]
fn manager_ring_mut_access() {
    let mut fm = FocusManager::new(5);
    fm.ring_mut().set_focused(3);
    assert_eq!(fm.focused(), 3);
}

#[test]
fn manager_home_skips_disabled_first() {
    let mut fm = FocusManager::new(5);
    fm.set_enabled(0, false);
    assert_eq!(fm.handle_action(FocusAction::Home), 1);
}

#[test]
fn manager_end_skips_disabled_last() {
    let mut fm = FocusManager::new(5);
    fm.set_enabled(4, false);
    assert_eq!(fm.handle_action(FocusAction::End), 3);
}

#[test]
fn manager_empty_handle_action() {
    let mut fm = FocusManager::new(0);
    assert_eq!(fm.handle_action(FocusAction::TabNext), 0);
    assert_eq!(fm.handle_action(FocusAction::TabPrev), 0);
    assert_eq!(fm.handle_action(FocusAction::Home), 0);
    assert_eq!(fm.handle_action(FocusAction::End), 0);
}

#[test]
fn focus_action_debug() {
    for a in [
        FocusAction::TabNext,
        FocusAction::TabPrev,
        FocusAction::Activate,
        FocusAction::Home,
        FocusAction::End,
    ] {
        let _ = format!("{a:?}");
    }
}

#[test]
fn focus_action_equality() {
    assert_eq!(FocusAction::TabNext, FocusAction::TabNext);
    assert_ne!(FocusAction::TabNext, FocusAction::TabPrev);
}

#[test]
fn manager_single_enabled_item() {
    let mut fm = FocusManager::new(3);
    fm.set_enabled(0, false);
    fm.set_enabled(2, false);
    assert_eq!(fm.handle_action(FocusAction::TabNext), 1);
    assert_eq!(fm.handle_action(FocusAction::TabNext), 1);
    assert_eq!(fm.handle_action(FocusAction::TabPrev), 1);
}

#[test]
fn manager_tab_full_cycle() {
    let mut fm = FocusManager::new(4);
    let mut visited = Vec::new();
    for _ in 0..4 {
        let idx = fm.handle_action(FocusAction::TabNext);
        visited.push(idx);
    }
    assert_eq!(visited, vec![1, 2, 3, 0]);
}

#[test]
fn manager_clone() {
    let mut fm = FocusManager::new(3);
    fm.active = true;
    fm.set_enabled(1, false);
    let fm2 = fm.clone();
    assert_eq!(fm.focused(), fm2.focused());
    assert_eq!(fm.active, fm2.active);
    assert_eq!(fm.is_enabled(1), fm2.is_enabled(1));
}

// ── FocusDirection tests ────────────────────────────────────

#[test]
fn focus_direction_all_variants() {
    let dirs = [
        FocusDirection::Next,
        FocusDirection::Previous,
        FocusDirection::Up,
        FocusDirection::Down,
        FocusDirection::Left,
        FocusDirection::Right,
    ];
    for d in &dirs {
        let _ = format!("{d:?}");
    }
    assert_ne!(FocusDirection::Next, FocusDirection::Up);
    assert_eq!(FocusDirection::Left, FocusDirection::Left);
}

// ── Rect tests ──────────────────────────────────────────────

#[test]
fn rect_center() {
    let r = Rect::new(10, 20, 100, 50);
    assert_eq!(r.cx(), 60);
    assert_eq!(r.cy(), 45);
}

#[test]
fn rect_zero_size_center() {
    let r = Rect::new(5, 5, 0, 0);
    assert_eq!(r.cx(), 5);
    assert_eq!(r.cy(), 5);
}

// ── SpatialFocusManager tests ───────────────────────────────

fn make_items() -> Vec<FocusableItem> {
    // 2x2 grid:
    //  [A(0,0)]  [B(100,0)]
    //  [C(0,100)] [D(100,100)]
    vec![
        FocusableItem {
            id: "A".into(),
            tab_index: 0,
            bounds: Rect::new(0, 0, 80, 40),
        },
        FocusableItem {
            id: "B".into(),
            tab_index: 1,
            bounds: Rect::new(100, 0, 80, 40),
        },
        FocusableItem {
            id: "C".into(),
            tab_index: 2,
            bounds: Rect::new(0, 100, 80, 40),
        },
        FocusableItem {
            id: "D".into(),
            tab_index: 3,
            bounds: Rect::new(100, 100, 80, 40),
        },
    ]
}

#[test]
fn spatial_new_empty() {
    let sm = SpatialFocusManager::new();
    assert_eq!(sm.item_count(), 0);
    assert_eq!(sm.focused_index(), None);
    assert!(!sm.focus_ring_visible());
}

#[test]
fn spatial_default_is_new() {
    let sm = SpatialFocusManager::default();
    assert_eq!(sm.item_count(), 0);
}

#[test]
fn spatial_add_and_focus() {
    let mut sm = SpatialFocusManager::new();
    for item in make_items() {
        sm.add_item(item);
    }
    assert_eq!(sm.item_count(), 4);
    assert_eq!(sm.focused_index(), None);

    sm.navigate(FocusDirection::Next);
    assert_eq!(sm.focused_index(), Some(0));
    assert!(sm.focus_ring_visible());
}

#[test]
fn spatial_tab_order_sequential() {
    let mut sm = SpatialFocusManager::new();
    sm.set_items(make_items());

    // Tab through: None->A->B->C->D->A
    assert_eq!(sm.navigate(FocusDirection::Next), Some(0));
    assert_eq!(sm.focused_item().map(|i| i.id.as_str()), Some("A"));
    assert_eq!(sm.navigate(FocusDirection::Next), Some(1));
    assert_eq!(sm.navigate(FocusDirection::Next), Some(2));
    assert_eq!(sm.navigate(FocusDirection::Next), Some(3));
    assert_eq!(sm.navigate(FocusDirection::Next), Some(0));
}

#[test]
fn spatial_tab_order_reverse() {
    let mut sm = SpatialFocusManager::new();
    sm.set_items(make_items());

    // Previous from None -> last in tab order (D)
    assert_eq!(sm.navigate(FocusDirection::Previous), Some(3));
    assert_eq!(sm.navigate(FocusDirection::Previous), Some(2));
    assert_eq!(sm.navigate(FocusDirection::Previous), Some(1));
    assert_eq!(sm.navigate(FocusDirection::Previous), Some(0));
    // Wraps back to D
    assert_eq!(sm.navigate(FocusDirection::Previous), Some(3));
}

#[test]
fn spatial_arrow_right() {
    let mut sm = SpatialFocusManager::new();
    sm.set_items(make_items());
    sm.set_focused(0); // A at (0,0)

    // Right from A -> B at (100,0)
    assert_eq!(sm.navigate(FocusDirection::Right), Some(1));
}

#[test]
fn spatial_arrow_down() {
    let mut sm = SpatialFocusManager::new();
    sm.set_items(make_items());
    sm.set_focused(0); // A at (0,0)

    // Down from A -> C at (0,100)
    assert_eq!(sm.navigate(FocusDirection::Down), Some(2));
}

#[test]
fn spatial_arrow_left() {
    let mut sm = SpatialFocusManager::new();
    sm.set_items(make_items());
    sm.set_focused(1); // B at (100,0)

    // Left from B -> A at (0,0)
    assert_eq!(sm.navigate(FocusDirection::Left), Some(0));
}

#[test]
fn spatial_arrow_up() {
    let mut sm = SpatialFocusManager::new();
    sm.set_items(make_items());
    sm.set_focused(2); // C at (0,100)

    // Up from C -> A at (0,0)
    assert_eq!(sm.navigate(FocusDirection::Up), Some(0));
}

#[test]
fn spatial_no_candidate_stays() {
    let mut sm = SpatialFocusManager::new();
    sm.set_items(make_items());
    sm.set_focused(0); // A at top-left

    // Up from A -> nothing above, stays at A
    assert_eq!(sm.navigate(FocusDirection::Up), Some(0));
    // Left from A -> nothing to left, stays at A
    assert_eq!(sm.navigate(FocusDirection::Left), Some(0));
}

#[test]
fn spatial_focus_ring_visibility_toggle() {
    let mut sm = SpatialFocusManager::new();
    sm.set_items(make_items());

    assert!(!sm.focus_ring_visible());

    // Tab shows focus ring
    sm.navigate(FocusDirection::Next);
    assert!(sm.focus_ring_visible());

    // Mouse hides it
    sm.hide_focus_ring();
    assert!(!sm.focus_ring_visible());

    // Keyboard shows it again
    sm.show_focus_ring();
    assert!(sm.focus_ring_visible());
}

#[test]
fn spatial_negative_tab_index_skipped() {
    let mut sm = SpatialFocusManager::new();
    sm.set_items(vec![
        FocusableItem {
            id: "A".into(),
            tab_index: 0,
            bounds: Rect::new(0, 0, 40, 40),
        },
        FocusableItem {
            id: "skip".into(),
            tab_index: -1,
            bounds: Rect::new(50, 0, 40, 40),
        },
        FocusableItem {
            id: "B".into(),
            tab_index: 1,
            bounds: Rect::new(100, 0, 40, 40),
        },
    ]);

    // Tab: A -> B -> A (skips "skip")
    assert_eq!(sm.navigate(FocusDirection::Next), Some(0));
    assert_eq!(sm.navigate(FocusDirection::Next), Some(2));
    assert_eq!(sm.navigate(FocusDirection::Next), Some(0));
}

#[test]
fn spatial_set_items_clamps_focus() {
    let mut sm = SpatialFocusManager::new();
    sm.set_items(make_items());
    sm.set_focused(3);
    assert_eq!(sm.focused_index(), Some(3));

    // Shrink to 2 items -> focus clamped to 1
    sm.set_items(make_items()[..2].to_vec());
    assert_eq!(sm.focused_index(), Some(1));
}

#[test]
fn spatial_set_items_empty_clears_focus() {
    let mut sm = SpatialFocusManager::new();
    sm.set_items(make_items());
    sm.set_focused(2);
    sm.set_items(vec![]);
    assert_eq!(sm.focused_index(), None);
}

#[test]
fn spatial_clear_focus() {
    let mut sm = SpatialFocusManager::new();
    sm.set_items(make_items());
    sm.set_focused(1);
    sm.clear_focus();
    assert_eq!(sm.focused_index(), None);
}

#[test]
fn spatial_navigate_empty_returns_none() {
    let mut sm = SpatialFocusManager::new();
    assert_eq!(sm.navigate(FocusDirection::Next), None);
    assert_eq!(sm.navigate(FocusDirection::Up), None);
}

#[test]
fn spatial_custom_tab_order() {
    let mut sm = SpatialFocusManager::new();
    // Register in reverse tab order
    sm.set_items(vec![
        FocusableItem {
            id: "C".into(),
            tab_index: 2,
            bounds: Rect::new(0, 0, 40, 40),
        },
        FocusableItem {
            id: "A".into(),
            tab_index: 0,
            bounds: Rect::new(50, 0, 40, 40),
        },
        FocusableItem {
            id: "B".into(),
            tab_index: 1,
            bounds: Rect::new(100, 0, 40, 40),
        },
    ]);

    // Tab order should be A(1) -> B(2) -> C(0)
    assert_eq!(sm.navigate(FocusDirection::Next), Some(1));
    assert_eq!(sm.focused_item().map(|i| i.id.as_str()), Some("A"));
    assert_eq!(sm.navigate(FocusDirection::Next), Some(2));
    assert_eq!(sm.focused_item().map(|i| i.id.as_str()), Some("B"));
    assert_eq!(sm.navigate(FocusDirection::Next), Some(0));
    assert_eq!(sm.focused_item().map(|i| i.id.as_str()), Some("C"));
}

#[test]
fn spatial_diagonal_prefers_aligned() {
    // Items: A at (0,0), B at (200,10), C at (10,200)
    // From A, Right should pick B (mostly horizontal)
    // From A, Down should pick C (mostly vertical)
    let mut sm = SpatialFocusManager::new();
    sm.set_items(vec![
        FocusableItem {
            id: "A".into(),
            tab_index: 0,
            bounds: Rect::new(0, 0, 40, 40),
        },
        FocusableItem {
            id: "B".into(),
            tab_index: 1,
            bounds: Rect::new(200, 10, 40, 40),
        },
        FocusableItem {
            id: "C".into(),
            tab_index: 2,
            bounds: Rect::new(10, 200, 40, 40),
        },
    ]);

    sm.set_focused(0);
    assert_eq!(sm.navigate(FocusDirection::Right), Some(1));

    sm.set_focused(0);
    assert_eq!(sm.navigate(FocusDirection::Down), Some(2));
}

#[test]
fn focus_event_variants() {
    assert_eq!(FocusEvent::Moved(0), FocusEvent::Moved(0));
    assert_ne!(FocusEvent::Moved(0), FocusEvent::Moved(1));
    assert_eq!(FocusEvent::Activate, FocusEvent::Activate);
    assert_ne!(FocusEvent::Activate, FocusEvent::NoAction);
    let _ = format!("{:?}", FocusEvent::NoAction);
}

#[test]
fn focus_style_from_accent() {
    let s = FocusStyle::from_accent(Color::rgb(80, 160, 255));
    assert_eq!(s.color, Color::rgb(80, 160, 255));
    assert_eq!(s.width, 1);
    assert_eq!(s.radius, 2);
    assert_eq!(s.offset, 1);
}

#[test]
fn focus_style_indicator_rect() {
    let s = FocusStyle {
        color: Color::white(),
        width: 2,
        radius: 4,
        offset: 2,
    };
    let (fx, fy, fw, fh) = s.indicator_rect(10, 20, 100, 50);
    assert_eq!(fx, 8);
    assert_eq!(fy, 18);
    assert_eq!(fw, 104);
    assert_eq!(fh, 54);
}

#[test]
fn focus_style_indicator_rect_zero_offset() {
    let s = FocusStyle {
        color: Color::white(),
        width: 1,
        radius: 0,
        offset: 0,
    };
    let r = s.indicator_rect(5, 10, 80, 30);
    assert_eq!(r, (5, 10, 80, 30));
}


#[test]
fn spatial_handle_input_tab() {
    let mut sm = SpatialFocusManager::new();
    sm.set_items(make_items());

    let evt = InputEvent::TextInput('\t');
    assert_eq!(sm.handle_input(&evt), FocusEvent::Moved(0));
    assert_eq!(sm.handle_input(&evt), FocusEvent::Moved(1));
}

#[test]
fn spatial_handle_input_shift_tab() {
    let mut sm = SpatialFocusManager::new();
    sm.set_items(make_items());

    // Press Select (= Shift)
    sm.handle_input(&InputEvent::ButtonPress(Button::Select));
    // Shift+Tab goes Previous
    let evt = InputEvent::TextInput('\t');
    assert_eq!(sm.handle_input(&evt), FocusEvent::Moved(3));
    assert_eq!(sm.handle_input(&evt), FocusEvent::Moved(2));
    // Release Select
    sm.handle_input(&InputEvent::ButtonRelease(Button::Select));
    // Now Tab goes Next
    assert_eq!(sm.handle_input(&evt), FocusEvent::Moved(3));
}

#[test]
fn spatial_handle_input_arrows() {
    let mut sm = SpatialFocusManager::new();
    sm.set_items(make_items());
    sm.set_focused(0);

    let r = sm.handle_input(&InputEvent::ButtonPress(Button::Right));
    assert_eq!(r, FocusEvent::Moved(1)); // A -> B

    let r = sm.handle_input(&InputEvent::ButtonPress(Button::Down));
    assert_eq!(r, FocusEvent::Moved(3)); // B -> D
}

#[test]
fn spatial_handle_input_activate() {
    let mut sm = SpatialFocusManager::new();
    sm.set_items(make_items());
    sm.set_focused(2);

    let r = sm.handle_input(&InputEvent::ButtonPress(Button::Confirm));
    assert_eq!(r, FocusEvent::Activate);
}

#[test]
fn spatial_handle_input_activate_none_focused() {
    let mut sm = SpatialFocusManager::new();
    sm.set_items(make_items());
    // No focus set
    let r = sm.handle_input(&InputEvent::ButtonPress(Button::Confirm));
    assert_eq!(r, FocusEvent::NoAction);
}

#[test]
fn spatial_handle_input_mouse_hides_ring() {
    let mut sm = SpatialFocusManager::new();
    sm.set_items(make_items());

    // Tab to show ring
    sm.handle_input(&InputEvent::TextInput('\t'));
    assert!(sm.focus_ring_visible());

    // Mouse click hides ring
    sm.handle_input(&InputEvent::PointerClick { x: 50, y: 50 });
    assert!(!sm.focus_ring_visible());
}

#[test]
fn focus_style_from_theme_unset_matches_from_accent() {
    // A theme without focus_ring_* overrides must produce exactly
    // the accent-derived style (pixel-identical no-override path).
    let theme = Theme::dark();
    let themed = FocusStyle::from_theme(&theme);
    let derived = FocusStyle::from_accent(theme.accent);
    assert_eq!(themed.color, derived.color);
    assert_eq!(themed.width, derived.width);
    assert_eq!(themed.radius, derived.radius);
    assert_eq!(themed.offset, derived.offset);
}

#[test]
fn focus_style_from_theme_honors_overrides() {
    let mut theme = Theme::dark();
    theme.focus_ring_color = Some(Color::rgba(255, 0, 255, 160));
    theme.focus_ring_width = Some(3);
    theme.focus_ring_offset = Some(4);
    let s = FocusStyle::from_theme(&theme);
    assert_eq!(s.color, Color::rgba(255, 0, 255, 160));
    assert_eq!(s.width, 3);
    assert_eq!(s.offset, 4);
    // Radius stays at the accent-derived default.
    assert_eq!(s.radius, 2);
}

#[test]
fn focus_style_from_theme_partial_override() {
    let mut theme = Theme::dark();
    theme.focus_ring_color = Some(Color::rgb(0, 255, 0));
    let s = FocusStyle::from_theme(&theme);
    assert_eq!(s.color, Color::rgb(0, 255, 0));
    // Unset fields keep the accent-derived defaults.
    assert_eq!(s.width, 1);
    assert_eq!(s.offset, 1);
}

#[test]
fn home_end_with_everything_disabled_keep_focus() {
    let mut fm = FocusManager::new(3);
    fm.set_enabled(0, false);
    fm.set_enabled(1, false);
    fm.set_enabled(2, false);
    fm.ring_mut().set_focused(2);
    assert_eq!(fm.handle_action(FocusAction::Home), 2);
    assert_eq!(fm.focused(), 2);
    assert!(fm.active);
    fm.ring_mut().set_focused(1);
    assert_eq!(fm.handle_action(FocusAction::End), 1);
    assert_eq!(fm.focused(), 1);
}

#[test]
fn tab_with_everything_disabled_keeps_focus() {
    let mut fm = FocusManager::new(3);
    fm.set_enabled(0, false);
    fm.set_enabled(1, false);
    fm.set_enabled(2, false);
    fm.ring_mut().set_focused(1);
    assert_eq!(fm.handle_action(FocusAction::TabNext), 1);
    assert_eq!(fm.handle_action(FocusAction::TabPrev), 1);
    assert_eq!(fm.focused(), 1);
}
