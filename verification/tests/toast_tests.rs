use oasis_ui::styles::{ToastLevel, ToastPosition};
use oasis_ui::draw::{DrawOp, ShadowKind};
use oasis_ui::theme::Theme;
use oasis_ui::toast::{Toast, ToastStack, ENTRANCE_FRAMES};

// -- Level enum coverage --

#[test]
fn toast_level_debug() {
    assert_eq!(format!("{:?}", ToastLevel::Info), "Info");
    assert_eq!(format!("{:?}", ToastLevel::Success), "Success");
    assert_eq!(format!("{:?}", ToastLevel::Warning), "Warning");
    assert_eq!(format!("{:?}", ToastLevel::Error), "Error");
}

#[test]
fn toast_level_eq() {
    assert_eq!(ToastLevel::Info, ToastLevel::Info);
    assert_ne!(ToastLevel::Info, ToastLevel::Error);
}

#[test]
fn toast_position_debug() {
    assert_eq!(format!("{:?}", ToastPosition::TopRight), "TopRight");
    assert_eq!(format!("{:?}", ToastPosition::TopLeft), "TopLeft");
    assert_eq!(format!("{:?}", ToastPosition::BottomRight), "BottomRight");
    assert_eq!(format!("{:?}", ToastPosition::BottomLeft), "BottomLeft");
}

// -- Toast creation --

#[test]
fn toast_new() {
    let t = Toast::new("hello", ToastLevel::Info, 60);
    assert_eq!(t.message, "hello");
    assert_eq!(t.level, ToastLevel::Info);
    assert_eq!(t.ttl, 60);
    assert_eq!(t.total_ttl, 60);
    assert_eq!(t.entrance_frames, 0);
}

#[test]
fn toast_is_expired() {
    let t = Toast::new("msg", ToastLevel::Error, 0);
    assert!(t.is_expired());
    let t2 = Toast::new("msg", ToastLevel::Error, 1);
    assert!(!t2.is_expired());
}

// -- ToastStack creation and builder --

#[test]
fn stack_new_is_empty() {
    let stack = ToastStack::new();
    assert!(stack.is_empty());
    assert_eq!(stack.count(), 0);
}

#[test]
fn stack_with_position() {
    let stack = ToastStack::new().with_position(ToastPosition::BottomLeft);
    assert_eq!(stack.position(), ToastPosition::BottomLeft);
}

#[test]
fn stack_default_equals_new() {
    let a = ToastStack::new();
    let b = ToastStack::default();
    assert_eq!(a.count(), b.count());
    assert_eq!(a.position(), b.position());
    assert_eq!(a.max_visible(), b.max_visible());
    assert_eq!(a.max_queued(), b.max_queued());
}

// -- show / tick / expire --

#[test]
fn show_adds_toast() {
    let mut stack = ToastStack::new();
    stack.show("test", ToastLevel::Info, 60);
    assert_eq!(stack.count(), 1);
    assert!(!stack.is_empty());
}

#[test]
fn tick_decrements_ttl() {
    let mut stack = ToastStack::new();
    stack.show("test", ToastLevel::Info, 10);
    stack.tick();
    assert_eq!(stack.toasts()[0].ttl, 9);
}

#[test]
fn tick_removes_expired() {
    let mut stack = ToastStack::new();
    stack.show("test", ToastLevel::Info, 2);
    stack.tick(); // ttl = 1
    assert_eq!(stack.count(), 1);
    stack.tick(); // ttl = 0 -> removed
    assert_eq!(stack.count(), 0);
}

#[test]
fn tick_advances_entrance() {
    let mut stack = ToastStack::new();
    stack.show("test", ToastLevel::Success, 60);
    assert_eq!(stack.toasts()[0].entrance_frames, 0);
    stack.tick();
    assert!(stack.toasts()[0].entrance_frames > 0);
}

#[test]
fn tick_entrance_caps_at_one() {
    let mut stack = ToastStack::new();
    stack.show("test", ToastLevel::Success, 120);
    for _ in 0..100 {
        stack.tick();
    }
    assert_eq!(stack.toasts()[0].entrance_frames, ENTRANCE_FRAMES);
}

#[test]
fn queue_overflow_drops_oldest() {
    let mut stack = ToastStack::new();
    // max_queued defaults to 8
    for i in 0..12 {
        stack.show(&format!("toast {i}"), ToastLevel::Info, 120);
    }
    assert_eq!(stack.count(), 8);
    // Oldest should have been dropped; newest should remain.
    assert_eq!(stack.toasts().back().unwrap().message, "toast 11");
    assert_eq!(stack.toasts().front().unwrap().message, "toast 4");
}

#[test]
fn clear_removes_all() {
    let mut stack = ToastStack::new();
    stack.show("a", ToastLevel::Info, 60);
    stack.show("b", ToastLevel::Error, 60);
    stack.clear();
    assert!(stack.is_empty());
    assert_eq!(stack.count(), 0);
}

// -- Position variants --

#[test]
fn all_positions_constructible() {
    let positions = [
        ToastPosition::TopRight,
        ToastPosition::TopLeft,
        ToastPosition::BottomRight,
        ToastPosition::BottomLeft,
    ];
    for pos in positions {
        let stack = ToastStack::new().with_position(pos);
        assert_eq!(stack.position(), pos);
    }
}

#[test]
fn bg_color_maps_level_to_theme() {
    let theme = Theme::dark();
    let info = Toast::new("i", ToastLevel::Info, 1);
    let success = Toast::new("s", ToastLevel::Success, 1);
    let warning = Toast::new("w", ToastLevel::Warning, 1);
    let error = Toast::new("e", ToastLevel::Error, 1);
    assert_eq!(info.bg_color(&theme), theme.info);
    assert_eq!(success.bg_color(&theme), theme.success);
    assert_eq!(warning.bg_color(&theme), theme.warning);
    assert_eq!(error.bg_color(&theme), theme.error);
}

#[test]
fn toast_stack_draw_ops_stacks_from_top_right_with_slide() {
    let mut st = ToastStack::new();
    st.show("Hi", ToastLevel::Info, 60);
    st.show("Bye", ToastLevel::Error, 60);
    let theme = oasis_ui::theme::Theme::dark();
    let r = theme.border_radius_md;
    let fs = theme.font_size_md;
    let ops = st.draw(&theme, 0, 0, 200, 100, 10, &vec![0, 5], &vec![12, 18]);
    let expected = vec![
        DrawOp::Shadow { x: 8, y: 8, w: 184, h: 18, radius: r, kind: ShadowKind::Tooltip },
        DrawOp::FillRoundedRect { x: 8, y: 8, w: 184, h: 18, radius: r, color: theme.info },
        DrawOp::Text { text: "Hi".into(), x: 94, y: 12, font_size: fs, color: theme.text_on_accent },
        DrawOp::Shadow { x: 13, y: 30, w: 184, h: 18, radius: r, kind: ShadowKind::Tooltip },
        DrawOp::FillRoundedRect { x: 13, y: 30, w: 184, h: 18, radius: r, color: theme.error },
        DrawOp::Text { text: "Bye".into(), x: 96, y: 34, font_size: fs, color: theme.text_on_accent },
    ];
    assert_eq!(ops, expected);
    assert!(ToastStack::new().draw(&theme, 0, 0, 200, 100, 10, &Vec::new(), &Vec::new()).is_empty());
}

#[test]
fn toast_stack_measure_from_message_widths() {
    let mut st = ToastStack::new();
    assert_eq!(st.measure(&Vec::new(), 10), (0, 0));
    st.show("Hi", ToastLevel::Info, 60);
    st.show("Bye", ToastLevel::Error, 60);
    assert_eq!(st.measure(&vec![12, 18], 10), (50, 56));
}
