use oasis_ui::date_picker::{days_in_month, first_dow, DatePicker};
use oasis_ui::draw::DrawOp;



#[test]
fn date_picker_new_defaults() {
    let dp = DatePicker::new(2025, 3);
    assert_eq!(dp.year, 2025);
    assert_eq!(dp.month, 3);
    assert_eq!(dp.selected_day, 0);
    assert!(!dp.disabled);
}

#[test]
fn month_clamped() {
    let dp = DatePicker::new(2025, 15);
    assert_eq!(dp.month, 12);
}

#[test]
fn select_day_clamps() {
    let mut dp = DatePicker::new(2025, 2);
    dp.select_day(30);
    assert_eq!(dp.selected_day, 28); // Feb 2025 non-leap
}

#[test]
fn select_day_disabled_noop() {
    let mut dp = DatePicker::new(2025, 1);
    dp.disabled = true;
    dp.select_day(15);
    assert_eq!(dp.selected_day, 0);
}

#[test]
fn next_month_wraps() {
    let mut dp = DatePicker::new(2025, 12);
    dp.next_month();
    assert_eq!(dp.month, 1);
    assert_eq!(dp.year, 2026);
}

#[test]
fn prev_month_wraps() {
    let mut dp = DatePicker::new(2025, 1);
    dp.prev_month();
    assert_eq!(dp.month, 12);
    assert_eq!(dp.year, 2024);
}

#[test]
fn prev_month_clamps_day() {
    let mut dp = DatePicker::new(2025, 3);
    dp.select_day(31);
    dp.prev_month(); // Feb has 28 days
    assert_eq!(dp.selected_day, 28);
}

#[test]
fn leap_year_feb() {
    assert_eq!(days_in_month(2024, 2), 29);
    assert_eq!(days_in_month(2025, 2), 28);
    assert_eq!(days_in_month(2000, 2), 29);
    assert_eq!(days_in_month(1900, 2), 28);
}

#[test]
fn header_text() {
    let dp = DatePicker::new(2025, 7);
    assert_eq!(dp.header_text(), "July 2025");
}

#[test]
fn first_dow_known_dates() {
    // Jan 1, 2025 is a Wednesday (3).
    assert_eq!(first_dow(2025, 1), 3);
    // Mar 1, 2025 is a Saturday (6).
    assert_eq!(first_dow(2025, 3), 6);
}

#[test]
fn draw_ops_header_weekdays_and_grid() {
    let mut dp = DatePicker::new(2025, 1);
    dp.select_day(15);
    let theme = oasis_ui::theme::Theme::dark();
    let fs = theme.font_size_sm;
    let day_w: Vec<u32> = (1..=31).map(|d| if d < 10 { 6 } else { 12 }).collect();
    let ops = dp.draw(&theme, 0, 0, 140, 8, 70, 6, &vec![12; 7], &day_w);
    assert_eq!(ops.len(), 3 + 7 + 1 + 31 + 1);
    assert_eq!(ops[0], DrawOp::Text { text: "January 2025".into(), x: 35, y: 6, font_size: fs, color: theme.text_primary });
    assert_eq!(ops[1], DrawOp::Text { text: "<".into(), x: 4, y: 6, font_size: fs, color: theme.text_primary });
    assert_eq!(ops[2], DrawOp::Text { text: ">".into(), x: 130, y: 6, font_size: fs, color: theme.text_primary });
    assert_eq!(ops[3], DrawOp::Text { text: "Su".into(), x: 4, y: 24, font_size: fs, color: theme.text_secondary });
    assert_eq!(ops[9], DrawOp::Text { text: "Sa".into(), x: 124, y: 24, font_size: fs, color: theme.text_secondary });
    assert_eq!(ops[10], DrawOp::FillRect { x: 0, y: 35, w: 140, h: 1, color: theme.border });
    // January 1st 2025 is a Wednesday: column 3 of the first week.
    assert_eq!(ops[11], DrawOp::Text { text: "1".into(), x: 67, y: 42, font_size: fs, color: theme.text_primary });
    // The 15th (column 3, third week) is selected.
    assert_eq!(ops[25], DrawOp::FillRect { x: 60, y: 76, w: 20, h: 20, color: theme.accent });
    assert_eq!(ops[26], DrawOp::Text { text: "15".into(), x: 64, y: 82, font_size: fs, color: theme.background });
}
