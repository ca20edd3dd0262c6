use oasis_ui::input_field::InputField;
use oasis_ui::draw::DrawOp;



#[test]
fn input_field_new_defaults() {
    let f = InputField::new();
    assert!(f.text.is_empty());
    assert!(f.placeholder.is_empty());
    assert_eq!(f.cursor_pos, 0);
    assert!(f.selection.is_none());
    assert!(!f.focused);
    assert!(!f.password_mode);
}

#[test]
fn insert_char() {
    let mut f = InputField::new();
    f.insert('A');
    assert_eq!(f.text, "A");
    assert_eq!(f.cursor_pos, 1);
}

#[test]
fn insert_multiple_chars() {
    let mut f = InputField::new();
    for ch in "Hello".chars() {
        f.insert(ch);
    }
    assert_eq!(f.text, "Hello");
    assert_eq!(f.cursor_pos, 5);
}

#[test]
fn backspace_removes_char() {
    let mut f = InputField::new();
    f.insert('A');
    f.insert('B');
    f.backspace();
    assert_eq!(f.text, "A");
    assert_eq!(f.cursor_pos, 1);
}

#[test]
fn backspace_at_start_does_nothing() {
    let mut f = InputField::new();
    f.backspace();
    assert!(f.text.is_empty());
    assert_eq!(f.cursor_pos, 0);
}

#[test]
fn backspace_all_chars() {
    let mut f = InputField::new();
    f.insert('X');
    f.insert('Y');
    f.backspace();
    f.backspace();
    assert!(f.text.is_empty());
    assert_eq!(f.cursor_pos, 0);
}

#[test]
fn insert_unicode() {
    let mut f = InputField::new();
    f.insert('\u{00E9}'); // é
    f.insert('\u{1F600}'); // emoji
    assert_eq!(f.text.chars().count(), 2);
    assert_eq!(f.cursor_pos, 2);
}

#[test]
fn backspace_unicode() {
    let mut f = InputField::new();
    f.insert('\u{00E9}');
    f.insert('\u{1F600}');
    f.backspace();
    assert_eq!(f.text, "\u{00E9}");
    assert_eq!(f.cursor_pos, 1);
}

#[test]
fn password_mode_display() {
    let mut f = InputField::new();
    f.password_mode = true;
    f.insert('s');
    f.insert('e');
    f.insert('c');
    let display = f.display_text();
    assert_eq!(display, "***");
}

#[test]
fn normal_mode_display() {
    let mut f = InputField::new();
    f.insert('h');
    f.insert('i');
    let display = f.display_text();
    assert_eq!(display, "hi");
}

#[test]
fn input_field_default_same_as_new() {
    let a = InputField::new();
    let b = InputField::default();
    assert_eq!(a.text, b.text);
    assert_eq!(a.cursor_pos, b.cursor_pos);
    assert_eq!(a.focused, b.focused);
}

#[test]
fn insert_at_middle() {
    let mut f = InputField::new();
    for ch in "AC".chars() {
        f.insert(ch);
    }
    // Move cursor to position 1 (between A and C).
    f.cursor_pos = 1;
    f.insert('B');
    assert_eq!(f.text, "ABC");
    assert_eq!(f.cursor_pos, 2);
}

#[test]
fn backspace_at_zero_noop() {
    let mut f = InputField::new();
    for ch in "Hi".chars() {
        f.insert(ch);
    }
    f.cursor_pos = 0;
    f.backspace();
    assert_eq!(f.text, "Hi", "text should be unchanged");
    assert_eq!(f.cursor_pos, 0, "cursor should remain at 0");
}

#[test]
fn draw_ops_focused_text_with_cursor_after_prefix() {
    let mut f = InputField::new();
    f.insert('a');
    f.insert('b');
    f.insert('c');
    f.cursor_pos = 1;
    f.focused = true;
    assert_eq!(f.display_prefix(), "a");
    let theme = oasis_ui::theme::Theme::dark();
    let r = theme.border_radius_md;
    let fs = theme.font_size_md;
    let ops = f.draw(&theme, 0, 0, 100, 20, 10, 6);
    let expected = vec![
        DrawOp::FillRoundedRect { x: 0, y: 0, w: 100, h: 20, radius: r, color: theme.input_bg },
        DrawOp::StrokeRoundedRect { x: 0, y: 0, w: 100, h: 20, radius: r, width: 1, color: theme.input_border_focus },
        DrawOp::TextEllipsis { text: "abc".into(), x: 4, y: 5, font_size: fs, color: theme.text_primary, max_w: 92 },
        DrawOp::FillRect { x: 10, y: 5, w: 1, h: 10, color: theme.text_primary },
    ];
    assert_eq!(ops, expected);
}

#[test]
fn draw_ops_empty_shows_placeholder_and_password_masks() {
    let mut f = InputField::new();
    f.placeholder = "Name".into();
    let theme = oasis_ui::theme::Theme::dark();
    let ops = f.draw(&theme, 0, 0, 100, 20, 10, 0);
    assert_eq!(
        ops[2],
        DrawOp::TextEllipsis { text: "Name".into(), x: 4, y: 5, font_size: theme.font_size_md, color: theme.text_disabled, max_w: 92 }
    );
    f.insert('x');
    f.insert('y');
    f.password_mode = true;
    let ops = f.draw(&theme, 0, 0, 100, 20, 10, 0);
    assert_eq!(ops.len(), 3);
    assert!(matches!(&ops[2], DrawOp::TextEllipsis { text, .. } if text.as_str() == "**"));
    assert_eq!(f.display_prefix(), "**");
}
