//! Colour picker drawing.
use crate::color::Color;
use crate::draw::{cmds, lemma_cmds_push, DrawCmd, DrawOp};
use crate::layout::{center, center_in_range, center_spec};
use crate::theme::Theme;
use vstd::prelude::*;

verus! {

/// Side of the saturation/value square.
pub const SV_SIZE: u32 = 80;

/// Cells along each side of the saturation/value square.
pub const SV_STEPS: u32 = 8;

/// Width of the hue bar.
pub const HUE_BAR_WIDTH: u32 = 14;

/// Bands of the hue bar.
pub const HUE_STEPS: u32 = 12;

/// Gap between the square, the hue bar and the preview.
pub const PICKER_GAP: u32 = 4;

/// Height of the preview swatch.
pub const PREVIEW_HEIGHT: u32 = 16;

/// Opaque white, the color of the cursors.
pub open spec fn white() -> Color {
    Color { r: 255, g: 255, b: 255, a: 255 }
}

/// The cell of the saturation/value square with index `k` (row by row,
/// `SV_STEPS` cells per row), in the color `colors[k]`.
pub open spec fn sv_cell(x: i32, y: i32, colors: Seq<Color>, k: int) -> DrawCmd {
    DrawCmd::FillRect {
        x: (x + (k % 8) * 10) as i32,
        y: (y + (k / 8) * 10) as i32,
        w: 10,
        h: 10,
        color: colors[k],
    }
}

/// Band `i` of the hue bar, in the color `colors[i]`.
pub open spec fn hue_band(x: i32, y: i32, colors: Seq<Color>, i: int) -> DrawCmd {
    DrawCmd::FillRect { x: (x + SV_SIZE + PICKER_GAP) as i32, y: (y + i * 6) as i32, w: HUE_BAR_WIDTH, h: 6, color: colors[i] }
}

/// What a colour picker draws at `(x, y)`, given the colors of the
/// saturation/value cells and the hue bands, where the two cursors sit
/// (offsets from the square's corner and from the bar's top), the current
/// color, its hex text and that text's width, and the text height: the
/// square of cells with its border and cursor, the hue bar with its border
/// and cursor, then the preview swatch with its border and the hex text.
pub open spec fn picker_draw_ops(
    disabled: bool,
    theme: Theme,
    x: i32,
    y: i32,
    sv_colors: Seq<Color>,
    hue_colors: Seq<Color>,
    cursor: (i32, i32),
    hue_cursor: i32,
    preview: Color,
    hex: Seq<char>,
    hex_w: u32,
    text_h: u32,
) -> Seq<DrawCmd> {
    let border = if disabled {
        theme.border_subtle
    } else {
        theme.input_border
    };
    let hx = x + SV_SIZE + PICKER_GAP;
    let py = y + SV_SIZE + PICKER_GAP;
    let pw = SV_SIZE + PICKER_GAP + HUE_BAR_WIDTH;
    Seq::new(64, |k: int| sv_cell(x, y, sv_colors, k)) + seq![
        DrawCmd::StrokeRect { x, y, w: SV_SIZE, h: SV_SIZE, width: 1, color: border },
        DrawCmd::StrokeRect {
            x: (x + cursor.0 - 2) as i32,
            y: (y + cursor.1 - 2) as i32,
            w: 5,
            h: 5,
            width: 1,
            color: white(),
        },
    ] + Seq::new(12, |i: int| hue_band(x, y, hue_colors, i)) + seq![
        DrawCmd::StrokeRect { x: hx as i32, y, w: HUE_BAR_WIDTH, h: SV_SIZE, width: 1, color: border },
        DrawCmd::FillRect { x: (hx - 1) as i32, y: (y + hue_cursor) as i32, w: (HUE_BAR_WIDTH + 2) as u32, h: 2, color: white() },
        DrawCmd::FillRect { x, y: py as i32, w: pw as u32, h: PREVIEW_HEIGHT, color: preview },
        DrawCmd::StrokeRect { x, y: py as i32, w: pw as u32, h: PREVIEW_HEIGHT, width: 1, color: border },
        DrawCmd::Text {
            text: hex,
            x: (x + center_spec(pw as u32, hex_w)) as i32,
            y: (py + center_spec(PREVIEW_HEIGHT, text_h)) as i32,
            font_size: theme.font_size_sm,
            color: if disabled {
                theme.text_disabled
            } else {
                theme.text_primary
            },
        },
    ]
}

/// What drawing a colour picker at `(x, y)` asks the renderer to draw (see
/// [`picker_draw_ops`]).
pub fn draw_color_picker(
    disabled: bool,
    theme: &Theme,
    x: i32,
    y: i32,
    sv_colors: &Vec<Color>,
    hue_colors: &Vec<Color>,
    cursor: (i32, i32),
    hue_cursor: i32,
    preview: Color,
    hex: &str,
    hex_w: u32,
    text_h: u32,
) -> (r: Vec<DrawOp>)
    requires
        sv_colors@.len() == 64,
        hue_colors@.len() == 12,
        x - 2 >= i32::MIN,
        x + SV_SIZE + PICKER_GAP + HUE_BAR_WIDTH <= i32::MAX,
        y + SV_SIZE + PICKER_GAP + PREVIEW_HEIGHT <= i32::MAX,
        i32::MIN + 2 <= x + cursor.0 <= i32::MAX,
        i32::MIN + 2 <= y + cursor.1 <= i32::MAX,
        i32::MIN <= y + hue_cursor <= i32::MAX,
        hex_w <= i32::MAX,
        text_h <= i32::MAX,
    ensures
        cmds(r@) == picker_draw_ops(
            disabled,
            *theme,
            x,
            y,
            sv_colors@,
            hue_colors@,
            cursor,
            hue_cursor,
            preview,
            hex@,
            hex_w,
            text_h,
        ),
{
    let border = theme.interactive_border(disabled, false);
    let white = Color { r: 255, g: 255, b: 255, a: 255 };
    let mut out: Vec<DrawOp> = Vec::new();
    let mut k: usize = 0;
    while k < 64
        invariant
            k <= 64,
            sv_colors@.len() == 64,
            x + SV_SIZE <= i32::MAX,
            y + SV_SIZE <= i32::MAX,
            cmds(out@) =~= Seq::new(k as nat, |j: int| sv_cell(x, y, sv_colors@, j)),
        decreases 64 - k,
    {
        let op = DrawOp::FillRect {
            x: x + ((k % 8) * 10) as i32,
            y: y + ((k / 8) * 10) as i32,
            w: 10,
            h: 10,
            color: sv_colors[k],
        };
        proof {
            lemma_cmds_push(out@, op);
        }
        out.push(op);
        k = k + 1;
    }
    let op = DrawOp::StrokeRect { x, y, w: SV_SIZE, h: SV_SIZE, width: 1, color: border };
    proof {
        lemma_cmds_push(out@, op);
    }
    out.push(op);
    let op = DrawOp::StrokeRect { x: x + cursor.0 - 2, y: y + cursor.1 - 2, w: 5, h: 5, width: 1, color: white };
    proof {
        lemma_cmds_push(out@, op);
    }
    out.push(op);
    let ghost head = cmds(out@);
    let hx = x + (SV_SIZE + PICKER_GAP) as i32;
    let mut i: usize = 0;
    while i < 12
        invariant
            i <= 12,
            hue_colors@.len() == 12,
            hx == x + SV_SIZE + PICKER_GAP,
            y + SV_SIZE <= i32::MAX,
            cmds(out@) =~= head + Seq::new(i as nat, |j: int| hue_band(x, y, hue_colors@, j)),
        decreases 12 - i,
    {
        let op = DrawOp::FillRect { x: hx, y: y + (i * 6) as i32, w: HUE_BAR_WIDTH, h: 6, color: hue_colors[i] };
        proof {
            lemma_cmds_push(out@, op);
        }
        out.push(op);
        i = i + 1;
    }
    let op = DrawOp::StrokeRect { x: hx, y, w: HUE_BAR_WIDTH, h: SV_SIZE, width: 1, color: border };
    proof {
        lemma_cmds_push(out@, op);
    }
    out.push(op);
    let op = DrawOp::FillRect { x: hx - 1, y: y + hue_cursor, w: HUE_BAR_WIDTH + 2, h: 2, color: white };
    proof {
        lemma_cmds_push(out@, op);
    }
    out.push(op);
    let py = y + (SV_SIZE + PICKER_GAP) as i32;
    let pw = SV_SIZE + PICKER_GAP + HUE_BAR_WIDTH;
    let op = DrawOp::FillRect { x, y: py, w: pw, h: PREVIEW_HEIGHT, color: preview };
    proof {
        lemma_cmds_push(out@, op);
    }
    out.push(op);
    let op = DrawOp::StrokeRect { x, y: py, w: pw, h: PREVIEW_HEIGHT, width: 1, color: border };
    proof {
        lemma_cmds_push(out@, op);
    }
    out.push(op);
    assert(center_in_range(pw, hex_w));
    assert(center_in_range(PREVIEW_HEIGHT, text_h));
    let op = DrawOp::Text {
        text: String::from_str(hex),
        x: x + center(pw, hex_w),
        y: py + center(PREVIEW_HEIGHT, text_h),
        font_size: theme.font_size_sm,
        color: theme.interactive_text(disabled),
    };
    proof {
        lemma_cmds_push(out@, op);
    }
    out.push(op);
    assert(cmds(out@) =~= picker_draw_ops(
        disabled,
        *theme,
        x,
        y,
        sv_colors@,
        hue_colors@,
        cursor,
        hue_cursor,
        preview,
        hex@,
        hex_w,
        text_h,
    ));
    out
}

} // verus!
