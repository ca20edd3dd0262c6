use oasis_ui::color::Color;
use oasis_ui::color_picker::draw_color_picker;
use oasis_ui::draw::DrawOp;
use oasis_ui::progress_bar::ProgressFace;
use oasis_ui::spin_box::SpinBoxFace;
use oasis_ui::split_pane::SplitPane;
use oasis_ui::styles::{PaneId, ProgressStyle, SplitOrientation};
use oasis_ui::theme::Theme;
use oasis_ui::toggle::draw_toggle;

#[test]
fn toggle_draws_track_then_thumb() {
    let theme = Theme::dark();
    let track = Color::rgba(1, 2, 3, 4);
    let ops = draw_toggle(&theme, 10, 20, 28, 16, track, 12);
    assert_eq!(ops.len(), 2);
    assert_eq!(
        ops[0],
        DrawOp::FillRoundedRect { x: 10, y: 20, w: 28, h: 16, radius: 8, color: track }
    );
    assert_eq!(
        ops[1],
        DrawOp::FillCircle { cx: 10 + 8 + 12, cy: 28, r: 6, color: theme.toggle_thumb }
    );
}

#[test]
fn progress_bar_empty_draws_track_only() {
    let theme = Theme::dark();
    let face = ProgressFace { style: ProgressStyle::Bar, show_label: false };
    let ops = face.draw(&theme, 0, 0, 100, 8, 0, "0%", 16, 8, false);
    assert_eq!(ops.len(), 1);
    assert_eq!(
        ops[0],
        DrawOp::FillRoundedRect { x: 0, y: 0, w: 100, h: 8, radius: 4, color: theme.scrollbar_track }
    );
}

#[test]
fn progress_bar_fill_and_label() {
    let theme = Theme::dark();
    let face = ProgressFace { style: ProgressStyle::Bar, show_label: true };
    let ops = face.draw(&theme, 5, 7, 100, 12, 40, "40%", 24, 8, false);
    assert_eq!(ops.len(), 3);
    assert_eq!(
        ops[1],
        DrawOp::FillRoundedRect { x: 5, y: 7, w: 40, h: 12, radius: 6, color: theme.accent }
    );
    assert_eq!(
        ops[2],
        DrawOp::Text {
            text: "40%".to_string(),
            x: 5 + 38,
            y: 7 + 2,
            font_size: theme.font_size_xs,
            color: theme.text_primary,
        }
    );
}

#[test]
fn progress_circle_full_adds_accent_ring() {
    let theme = Theme::dark();
    let face = ProgressFace { style: ProgressStyle::Circular, show_label: false };
    let partial = face.draw(&theme, 0, 0, 40, 30, 0, "", 0, 8, false);
    assert_eq!(partial.len(), 1);
    assert_eq!(
        partial[0],
        DrawOp::StrokeCircle { cx: 15, cy: 15, r: 15, width: 2, color: theme.scrollbar_track }
    );
    let full = face.draw(&theme, 0, 0, 40, 30, 0, "", 0, 8, true);
    assert_eq!(full.len(), 2);
    assert_eq!(
        full[1],
        DrawOp::StrokeCircle { cx: 15, cy: 15, r: 15, width: 2, color: theme.accent }
    );
}

#[test]
fn spin_box_greys_minus_at_min() {
    let theme = Theme::dark();
    let face = SpinBoxFace { disabled: false, at_min: true, at_max: false };
    let ops = face.draw(&theme, 0, 0, 100, 24, 8, 8, 8, "0", 8);
    assert_eq!(ops.len(), 7);
    assert_eq!(ops[0], DrawOp::FillRect { x: 0, y: 0, w: 100, h: 24, color: theme.surface });
    assert_eq!(
        ops[3],
        DrawOp::Text {
            text: "-".to_string(),
            x: 5,
            y: 8,
            font_size: theme.font_size_md,
            color: theme.text_disabled,
        }
    );
    assert_eq!(
        ops[4],
        DrawOp::StrokeRect { x: 82, y: 0, w: 18, h: 24, width: 1, color: theme.input_border }
    );
    assert_eq!(
        ops[5],
        DrawOp::Text {
            text: "+".to_string(),
            x: 82 + 5,
            y: 8,
            font_size: theme.font_size_md,
            color: theme.text_primary,
        }
    );
    assert_eq!(
        ops[6],
        DrawOp::Text {
            text: "0".to_string(),
            x: 18 + 28,
            y: 8,
            font_size: theme.font_size_md,
            color: theme.text_primary,
        }
    );
}

#[test]
fn spin_box_disabled_uses_subtle_border() {
    let theme = Theme::dark();
    let face = SpinBoxFace { disabled: true, at_min: false, at_max: false };
    let ops = face.draw(&theme, 0, 0, 60, 20, 8, 8, 8, "5", 8);
    assert_eq!(
        ops[1],
        DrawOp::StrokeRect { x: 0, y: 0, w: 60, h: 20, width: 1, color: theme.border_subtle }
    );
}

#[test]
fn color_picker_layout() {
    let theme = Theme::dark();
    let sv: Vec<Color> = (0..64u8).map(|k| Color::rgba(k, 0, 0, 255)).collect();
    let hue: Vec<Color> = (0..12u8).map(|i| Color::rgba(0, i, 0, 255)).collect();
    let preview = Color::rgba(9, 9, 9, 255);
    let ops = draw_color_picker(false, &theme, 10, 20, &sv, &hue, (40, 50), 30, preview, "#090909", 56, 8);
    assert_eq!(ops.len(), 64 + 2 + 12 + 5);
    assert_eq!(ops[9], DrawOp::FillRect { x: 20, y: 30, w: 10, h: 10, color: sv[9] });
    assert_eq!(
        ops[65],
        DrawOp::StrokeRect { x: 48, y: 68, w: 5, h: 5, width: 1, color: Color::rgba(255, 255, 255, 255) }
    );
    assert_eq!(ops[66 + 3], DrawOp::FillRect { x: 94, y: 38, w: 14, h: 6, color: hue[3] });
    assert_eq!(
        ops[79],
        DrawOp::FillRect { x: 93, y: 50, w: 16, h: 2, color: Color::rgba(255, 255, 255, 255) }
    );
    assert_eq!(ops[80], DrawOp::FillRect { x: 10, y: 104, w: 98, h: 16, color: preview });
    assert_eq!(
        ops[82],
        DrawOp::Text {
            text: "#090909".to_string(),
            x: 10 + 21,
            y: 104 + 4,
            font_size: theme.font_size_sm,
            color: theme.text_primary,
        }
    );
}

#[test]
fn split_pane_draws_divider() {
    let theme = Theme::dark();
    let mut sp = SplitPane::new(SplitOrientation::Horizontal);
    let ops = sp.draw(&theme, 0, 0, 200, 100, 98);
    assert_eq!(ops, vec![DrawOp::FillRect { x: 98, y: 0, w: 4, h: 100, color: theme.border }]);
    sp.hovered = true;
    let ops = sp.draw(&theme, 0, 0, 200, 100, 98);
    assert_eq!(ops[0], DrawOp::FillRect { x: 98, y: 0, w: 4, h: 100, color: theme.border_strong });
    sp.hovered = false;
    sp.collapsed_pane = Some(PaneId::Second);
    let ops = sp.draw(&theme, 0, 0, 200, 100, 98);
    assert_eq!(ops[0], DrawOp::FillRect { x: 196, y: 0, w: 4, h: 100, color: theme.border });
}

#[test]
fn split_pane_vertical_divider() {
    let theme = Theme::dark();
    let sp = SplitPane::new(SplitOrientation::Vertical);
    let ops = sp.draw(&theme, 5, 10, 200, 100, 30);
    assert_eq!(ops[0], DrawOp::FillRect { x: 5, y: 40, w: 200, h: 4, color: theme.border });
}
