use oasis_ui::color::{dim_color, Color};
use oasis_ui::draw::DrawOp;
use oasis_ui::slider::SliderFace;
use oasis_ui::styles::Orientation;



#[test]
fn orientation_enum_equality() {
    assert_eq!(Orientation::Horizontal, Orientation::Horizontal);
    assert_ne!(Orientation::Horizontal, Orientation::Vertical);
}

#[test]
fn dim_color_halves_alpha() {
    let c = Color::rgba(100, 150, 200, 200);
    let d = dim_color(c);
    assert_eq!(d.r, 100);
    assert_eq!(d.g, 150);
    assert_eq!(d.b, 200);
    assert_eq!(d.a, 100);
}

#[test]
fn slider_face_draw_horizontal_with_label() {
    let face = SliderFace {
        orientation: Orientation::Horizontal,
        disabled: false,
        show_value_label: true,
        thumb_size: 12,
    };
    let theme = oasis_ui::theme::Theme::dark();
    let track_w = face.track_extent(&theme, 200, 20, 24);
    assert_eq!(track_w, 200 - 24 - theme.spacing_sm as u32);
    let fill = track_w / 2;
    let ops = face.draw(&theme, 0, 0, 200, 20, fill, "50", 16, 24, 8);
    let expected = vec![
        DrawOp::FillRoundedRect { x: 0, y: 7, w: track_w, h: 6, radius: 3, color: theme.slider_track },
        DrawOp::FillRoundedRect { x: 0, y: 7, w: fill, h: 6, radius: 3, color: theme.slider_fill },
        DrawOp::FillCircle { cx: fill as i32, cy: 10, r: 6, color: theme.accent },
        DrawOp::FillCircle { cx: fill as i32, cy: 10, r: 5, color: theme.slider_thumb },
        DrawOp::Text {
            text: "50".into(),
            x: track_w as i32 + theme.spacing_sm as i32,
            y: 6,
            font_size: theme.font_size_xs,
            color: theme.text_primary,
        },
    ];
    assert_eq!(ops, expected);
}

#[test]
fn slider_face_draw_vertical_disabled_and_empty_fill() {
    let mut face = SliderFace {
        orientation: Orientation::Vertical,
        disabled: false,
        show_value_label: true,
        thumb_size: 12,
    };
    let theme = oasis_ui::theme::Theme::dark();
    let ops = face.draw(&theme, 0, 0, 20, 100, 30, "3", 8, 0, 8);
    let expected = vec![
        DrawOp::FillRoundedRect { x: 7, y: 0, w: 6, h: 100, radius: 3, color: theme.slider_track },
        DrawOp::FillRoundedRect { x: 7, y: 70, w: 6, h: 30, radius: 3, color: theme.slider_fill },
        DrawOp::FillCircle { cx: 10, cy: 70, r: 6, color: theme.accent },
        DrawOp::FillCircle { cx: 10, cy: 70, r: 5, color: theme.slider_thumb },
        DrawOp::Text {
            text: "3".into(),
            x: 6,
            y: 100 + theme.spacing_xs as i32,
            font_size: theme.font_size_xs,
            color: theme.text_primary,
        },
    ];
    assert_eq!(ops, expected);
    face.disabled = true;
    face.show_value_label = false;
    face.thumb_size = 2;
    let ops = face.draw(&theme, 0, 0, 20, 100, 0, "", 0, 0, 8);
    let mut dim_track = theme.slider_track;
    dim_track.a /= 2;
    assert_eq!(
        ops,
        vec![
            DrawOp::FillRoundedRect { x: 7, y: 0, w: 6, h: 100, radius: 3, color: dim_track },
            DrawOp::FillCircle { cx: 10, cy: 100, r: 1, color: theme.border_subtle },
        ]
    );
}
