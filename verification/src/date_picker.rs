//! Calendar date picker: month navigation, day selection and calendar rules.
use crate::draw::{cmds, lemma_cmds_add, lemma_cmds_push, DrawCmd, DrawOp};
use crate::layout::{center, center_in_range, center_spec, trunc_div, Widget};
use crate::theme::Theme;
use crate::text::{decimal, push_char, push_decimal};
use vstd::prelude::*;

verus! {

/// Width of one day cell.
pub const CELL_SIZE: u32 = 20;

/// Height of the month/year header.
pub const HEADER_HEIGHT: u32 = 20;

/// Height of the day-of-week label row.
pub const DOW_HEIGHT: u32 = 16;

/// A calendar date picker.
pub struct DatePicker {
    /// Displayed year.
    pub year: u16,
    /// Displayed month (1-12).
    pub month: u8,
    /// Selected day of the month (1-based, 0 = none).
    pub selected_day: u8,
    /// Whether the picker ignores input.
    pub disabled: bool,
}

/// Whether `year` is a Gregorian leap year.
pub open spec fn is_leap_spec(year: int) -> bool {
    (year % 4 == 0 && year % 100 != 0) || year % 400 == 0
}

/// Number of days in a month; months outside 1-12 count 30 days.
pub open spec fn days_in_month_spec(year: u16, month: u8) -> u8 {
    if month == 2 {
        if is_leap_spec(year as int) {
            29
        } else {
            28
        }
    } else if month == 4 || month == 6 || month == 9 || month == 11 {
        30
    } else if 1 <= month <= 12 {
        31
    } else {
        30
    }
}

/// Month offsets of Sakamoto's day-of-week method.
pub open spec fn month_offset(month: u8) -> int {
    seq![0int, 3, 2, 5, 0, 3, 5, 1, 4, 6, 2, 4][month - 1]
}

/// Day of week (0 = Sunday) of the first day of a month, by Sakamoto's
/// method; January and February count as months of the previous year.
pub open spec fn first_dow_spec(year: u16, month: u8) -> int {
    let y = if month < 3 {
        year - 1
    } else {
        year as int
    };
    (y + trunc_div(y, 4) - trunc_div(y, 100) + trunc_div(y, 400) + month_offset(month) + 1) % 7
}

/// English name of a month, or "???" outside 1-12.
pub open spec fn month_name_spec(m: u8) -> Seq<char> {
    if m == 1 {
        "January"@
    } else if m == 2 {
        "February"@
    } else if m == 3 {
        "March"@
    } else if m == 4 {
        "April"@
    } else if m == 5 {
        "May"@
    } else if m == 6 {
        "June"@
    } else if m == 7 {
        "July"@
    } else if m == 8 {
        "August"@
    } else if m == 9 {
        "September"@
    } else if m == 10 {
        "October"@
    } else if m == 11 {
        "November"@
    } else if m == 12 {
        "December"@
    } else {
        "???"@
    }
}

/// `v` limited to the range `lo..=hi`.
pub open spec fn clamp_spec(v: int, lo: int, hi: int) -> int {
    if v < lo {
        lo
    } else if v > hi {
        hi
    } else {
        v
    }
}

/// The month shown before `(year, month)`: December of the previous year
/// before January (the year stops at 0).
pub open spec fn prev_ym(year: u16, month: u8) -> (u16, u8) {
    if month == 1 {
        (if year == 0 { 0 } else { (year - 1) as u16 }, 12)
    } else {
        (year, (month - 1) as u8)
    }
}

/// The month shown after `(year, month)`: January of the next year after
/// December (the year stops at its maximum).
pub open spec fn next_ym(year: u16, month: u8) -> (u16, u8) {
    if month == 12 {
        (if year == u16::MAX { u16::MAX } else { (year + 1) as u16 }, 1)
    } else {
        (year, (month + 1) as u8)
    }
}

/// Moving to the next month and back returns to the same month, away from
/// the last representable year.
pub proof fn lemma_next_then_prev_month(year: u16, month: u8)
    requires
        1 <= month <= 12,
        month == 12 ==> year < u16::MAX,
    ensures
        prev_ym(next_ym(year, month).0, next_ym(year, month).1) == (year, month),
{
}

/// Moving to the previous month and forward again returns to the same
/// month, away from year 0.
pub proof fn lemma_prev_then_next_month(year: u16, month: u8)
    requires
        1 <= month <= 12,
        month == 1 ==> year > 0,
    ensures
        next_ym(prev_ym(year, month).0, prev_ym(year, month).1) == (year, month),
{
}

/// After a move the selected day is within the new month (or none).
pub proof fn lemma_clamped_day_fits(day: u8, year: u16, month: u8)
    ensures
        ({
            let d = if day > 0 && day > days_in_month_spec(year, month) {
                days_in_month_spec(year, month)
            } else {
                day
            };
            d <= days_in_month_spec(year, month)
        }),
{
}

/// The year part of Sakamoto's sum.
spec fn year_term(y: int) -> int {
    y + y / 4 - y / 100 + y / 400
}

/// One step of floor division: `y / k` grows by one exactly at multiples.
proof fn lemma_div_step(y: int, k: int)
    requires
        y >= 1,
        k > 0,
    ensures
        y / k == (y - 1) / k + (if y % k == 0 {
            1int
        } else {
            0int
        }),
{
    vstd::arithmetic::div_mod::lemma_fundamental_div_mod(y, k);
    vstd::arithmetic::div_mod::lemma_fundamental_div_mod(y - 1, k);
    let q = y / k;
    let r = y % k;
    let q1 = (y - 1) / k;
    let r1 = (y - 1) % k;
    if r == 0 {
        assert(q == q1 + 1) by (nonlinear_arith)
            requires
                y == k * q + r,
                y - 1 == k * q1 + r1,
                r == 0,
                0 <= r1 < k,
                k > 0,
        ;
    } else {
        assert(q == q1) by (nonlinear_arith)
            requires
                y == k * q + r,
                y - 1 == k * q1 + r1,
                0 < r < k,
                0 <= r1 < k,
                k > 0,
        ;
    }
}

/// From one year to the next the year term grows by one, plus one more
/// after a leap year's February.
proof fn lemma_year_term_step(y: int)
    requires
        y >= 1,
    ensures
        year_term(y) == year_term(y - 1) + 1 + (if is_leap_spec(y) {
            1int
        } else {
            0int
        }),
{
    lemma_div_step(y, 4);
    lemma_div_step(y, 100);
    lemma_div_step(y, 400);
    if y % 400 == 0 {
        vstd::arithmetic::div_mod::lemma_mod_mod(y, 100, 4);
        assert(y % 100 == 0 && y % 4 == 0) by {
            assert(y == 400 * (y / 400)) by {
                vstd::arithmetic::div_mod::lemma_fundamental_div_mod(y, 400);
            }
            assert(y == 100 * (4 * (y / 400))) by (nonlinear_arith)
                requires
                    y == 400 * (y / 400),
            ;
            assert(y == 4 * (100 * (y / 400))) by (nonlinear_arith)
                requires
                    y == 400 * (y / 400),
            ;
            vstd::arithmetic::div_mod::lemma_mod_multiples_basic(4 * (y / 400), 100);
            vstd::arithmetic::div_mod::lemma_mod_multiples_basic(100 * (y / 400), 4);
        }
    } else if y % 100 == 0 {
        assert(y % 4 == 0) by {
            assert(y == 100 * (y / 100)) by {
                vstd::arithmetic::div_mod::lemma_fundamental_div_mod(y, 100);
            }
            assert(y == 4 * (25 * (y / 100))) by (nonlinear_arith)
                requires
                    y == 100 * (y / 100),
            ;
            vstd::arithmetic::div_mod::lemma_mod_multiples_basic(25 * (y / 100), 4);
        }
    }
}

/// Shifting a day count by whole weeks keeps its weekday.
proof fn lemma_weekday_shift(s: int, dim: int, q: int)
    requires
        s >= 0,
        s + dim - 7 * q >= 0,
    ensures
        (s + dim - 7 * q) % 7 == (s % 7 + dim) % 7,
{
    vstd::arithmetic::div_mod::lemma_mod_multiples_vanish(-q, s + dim, 7);
    assert(7 * (-q) + (s + dim) == s + dim - 7 * q) by (nonlinear_arith);
    vstd::arithmetic::div_mod::lemma_add_mod_noop(s, dim, 7);
    vstd::arithmetic::div_mod::lemma_add_mod_noop(s % 7, dim, 7);
    vstd::arithmetic::div_mod::lemma_mod_twice(s, 7);
}

/// Calendar consistency: the first day of the next month falls the month's
/// length of days after the first day of this month.
pub proof fn lemma_first_dow_next_month(year: u16, month: u8)
    requires
        1 <= year,
        1 <= month <= 12,
        month == 12 ==> year < u16::MAX,
    ensures
        first_dow_spec(next_ym(year, month).0, next_ym(year, month).1) == (first_dow_spec(year, month)
            + days_in_month_spec(year, month)) % 7,
{
    let y = year as int;
    let (ny, nm) = next_ym(year, month);
    let yc = if month < 3 {
        y - 1
    } else {
        y
    };
    let yn = if nm < 3 {
        ny - 1
    } else {
        ny as int
    };
    assert(yc >= 0 && yn >= 0);
    assert(trunc_div(yc, 4) == yc / 4 && trunc_div(yc, 100) == yc / 100 && trunc_div(yc, 400) == yc
        / 400);
    assert(trunc_div(yn, 4) == yn / 4 && trunc_div(yn, 100) == yn / 100 && trunc_div(yn, 400) == yn
        / 400);
    let sc = year_term(yc) + month_offset(month) + 1;
    let sn = year_term(yn) + month_offset(nm) + 1;
    assert(first_dow_spec(year, month) == sc % 7);
    assert(first_dow_spec(ny, nm) == sn % 7);
    assert(yc / 4 >= 0 && yc / 100 <= yc / 4 && yc / 400 >= 0) by {
        vstd::arithmetic::div_mod::lemma_div_pos_is_pos(yc, 4);
        vstd::arithmetic::div_mod::lemma_div_is_ordered_by_denominator(yc, 4, 100);
        vstd::arithmetic::div_mod::lemma_div_pos_is_pos(yc, 400);
    }
    assert(yn / 4 >= 0 && yn / 100 <= yn / 4 && yn / 400 >= 0) by {
        vstd::arithmetic::div_mod::lemma_div_pos_is_pos(yn, 4);
        vstd::arithmetic::div_mod::lemma_div_is_ordered_by_denominator(yn, 4, 100);
        vstd::arithmetic::div_mod::lemma_div_pos_is_pos(yn, 400);
    }
    let dim = days_in_month_spec(year, month) as int;
    if month == 2 {
        lemma_year_term_step(y);
        assert(yn == y && yc == y - 1);
        assert(month_offset(2) == 3 && month_offset(3) == 2);
        assert(nm == 3);
        assert(year_term(yn) == year_term(y));
        assert(year_term(yc) == year_term(y - 1));
        assert(sn == year_term(y) + 3);
        assert(sc == year_term(y - 1) + 4);
        assert(sn == sc + dim - 28);
        lemma_weekday_shift(sc, dim, 4);
    } else if month == 12 {
        assert(yn == y && yc == y);
        assert(sn == sc + dim - 35);
        lemma_weekday_shift(sc, dim, 5);
    } else if month == 4 || month == 7 || month == 10 {
        assert(yn == yc);
        assert(sn == sc + dim - 35);
        lemma_weekday_shift(sc, dim, 5);
    } else {
        assert(yn == yc);
        assert(sn == sc + dim - 28);
        lemma_weekday_shift(sc, dim, 4);
    }
}

/// Whether a year is a leap year.
pub fn is_leap_year(year: u16) -> (r: bool)
    ensures
        r == is_leap_spec(year as int),
{
    (year % 4 == 0 && year % 100 != 0) || year % 400 == 0
}

/// Number of days in a month.
pub fn days_in_month(year: u16, month: u8) -> (r: u8)
    ensures
        r == days_in_month_spec(year, month),
        28 <= r <= 31,
{
    match month {
        1 | 3 | 5 | 7 | 8 | 10 | 12 => 31,
        4 | 6 | 9 | 11 => 30,
        2 => {
            if is_leap_year(year) {
                29
            } else {
                28
            }
        },
        _ => 30,
    }
}

/// Day of week for the first day of a month (0 = Sunday).
pub fn first_dow(year: u16, month: u8) -> (r: u8)
    requires
        1 <= month <= 12,
    ensures
        r == first_dow_spec(year, month),
        r < 7,
{
    let t: [i32; 12] = [0i32, 3, 2, 5, 0, 3, 5, 1, 4, 6, 2, 4];
    let y: i32 = if month < 3 {
        year as i32 - 1
    } else {
        year as i32
    };
    let m = month as usize;
    let off = t[m - 1];
    assert(off == month_offset(month)) by {
        assert(t@ == seq![0i32, 3, 2, 5, 0, 3, 5, 1, 4, 6, 2, 4]);
    }
    let q4 = y / 4;
    let q100 = y / 100;
    let q400 = y / 400;
    assert(q4 == trunc_div(y as int, 4) && q100 == trunc_div(y as int, 100) && q400 == trunc_div(
        y as int,
        400,
    ));
    let s = y + q4 - q100 + q400 + off + 1;
    assert(s >= 0);
    (s % 7) as u8
}

/// English name of a month.
pub fn month_name(m: u8) -> (r: &'static str)
    ensures
        r@ == month_name_spec(m),
{
    match m {
        1 => "January",
        2 => "February",
        3 => "March",
        4 => "April",
        5 => "May",
        6 => "June",
        7 => "July",
        8 => "August",
        9 => "September",
        10 => "October",
        11 => "November",
        12 => "December",
        _ => "???",
    }
}

impl DatePicker {
    /// Create an enabled picker showing the given month (clamped to 1-12),
    /// with no day selected.
    pub fn new(year: u16, month: u8) -> (r: Self)
        ensures
            r.year == year,
            r.month == clamp_spec(month as int, 1, 12),
            r.selected_day == 0,
            !r.disabled,
    {
        let month = if month < 1 {
            1
        } else if month > 12 {
            12
        } else {
            month
        };
        DatePicker { year, month, selected_day: 0, disabled: false }
    }

    /// Select a day, clamped to the days of the displayed month.
    pub fn select_day(&mut self, day: u8)
        ensures
            final(self).year == old(self).year,
            final(self).month == old(self).month,
            final(self).disabled == old(self).disabled,
            final(self).selected_day == if old(self).disabled {
                old(self).selected_day as int
            } else {
                clamp_spec(day as int, 1, days_in_month_spec(old(self).year, old(self).month) as int)
            },
    {
        if !self.disabled {
            let max = days_in_month(self.year, self.month);
            self.selected_day = if day < 1 {
                1
            } else if day > max {
                max
            } else {
                day
            };
        }
    }

    /// Limit the selected day to the days of the displayed month.
    fn clamp_selected(&mut self)
        ensures
            final(self).year == old(self).year,
            final(self).month == old(self).month,
            final(self).disabled == old(self).disabled,
            final(self).selected_day == if old(self).selected_day > 0 && old(self).selected_day
                > days_in_month_spec(old(self).year, old(self).month) {
                days_in_month_spec(old(self).year, old(self).month)
            } else {
                old(self).selected_day
            },
    {
        if self.selected_day > 0 {
            let max = days_in_month(self.year, self.month);
            if self.selected_day > max {
                self.selected_day = max;
            }
        }
    }

    /// Show the previous month (December of the previous year before
    /// January; the year stops at 0), keeping the selected day in range.
    pub fn prev_month(&mut self)
        requires
            old(self).month != 0 || old(self).disabled,
        ensures
            ({
                let (y, m) = prev_ym(old(self).year, old(self).month);
                if old(self).disabled {
                    *final(self) == *old(self)
                } else {
                    &&& final(self).year == y
                    &&& final(self).month == m
                    &&& final(self).disabled == old(self).disabled
                    &&& final(self).selected_day == if old(self).selected_day > 0
                        && old(self).selected_day > days_in_month_spec(y, m) {
                        days_in_month_spec(y, m)
                    } else {
                        old(self).selected_day
                    }
                }
            }),
    {
        if !self.disabled {
            if self.month == 1 {
                self.month = 12;
                self.year = if self.year > 0 {
                    self.year - 1
                } else {
                    0
                };
            } else {
                self.month = self.month - 1;
            }
            self.clamp_selected();
        }
    }

    /// Show the next month (January of the next year after December; the
    /// year stops at its maximum), keeping the selected day in range.
    pub fn next_month(&mut self)
        requires
            old(self).month != u8::MAX || old(self).disabled,
        ensures
            ({
                let (y, m) = next_ym(old(self).year, old(self).month);
                if old(self).disabled {
                    *final(self) == *old(self)
                } else {
                    &&& final(self).year == y
                    &&& final(self).month == m
                    &&& final(self).disabled == old(self).disabled
                    &&& final(self).selected_day == if old(self).selected_day > 0
                        && old(self).selected_day > days_in_month_spec(y, m) {
                        days_in_month_spec(y, m)
                    } else {
                        old(self).selected_day
                    }
                }
            }),
    {
        if !self.disabled {
            if self.month == 12 {
                self.month = 1;
                self.year = if self.year < u16::MAX {
                    self.year + 1
                } else {
                    u16::MAX
                };
            } else {
                self.month = self.month + 1;
            }
            self.clamp_selected();
        }
    }

    /// Header text: the month's name, a space and the year, such as
    /// "January 2025".
    pub fn header_text(&self) -> (r: String)
        ensures
            r@ == month_name_spec(self.month) + seq![' '] + decimal(self.year as nat),
    {
        let mut s = String::from_str(month_name(self.month));
        push_char(&mut s, ' ');
        push_decimal(&mut s, self.year as u32);
        s
    }
}

/// Column (day of week) and row (week) of the grid cell that shows day
/// `day` of a month whose first day falls on weekday `first`.
pub open spec fn day_cell_spec(first: int, day: int) -> (int, int) {
    ((first + day - 1) % 7, (first + day - 1) / 7)
}

/// Two different days of a month never share a grid cell.
pub proof fn lemma_day_cells_distinct(first: int, d1: int, d2: int)
    requires
        0 <= first < 7,
        1 <= d1,
        1 <= d2,
        d1 != d2,
    ensures
        day_cell_spec(first, d1) != day_cell_spec(first, d2),
{
    let i1 = first + d1 - 1;
    let i2 = first + d2 - 1;
    assert(i1 == 7 * (i1 / 7) + i1 % 7);
    assert(i2 == 7 * (i2 / 7) + i2 % 7);
}

/// The day-of-week label of column `i` (Sunday first).
pub open spec fn dow_label_spec(i: int) -> Seq<char> {
    if i == 0 {
        seq!['S', 'u']
    } else if i == 1 {
        seq!['M', 'o']
    } else if i == 2 {
        seq!['T', 'u']
    } else if i == 3 {
        seq!['W', 'e']
    } else if i == 4 {
        seq!['T', 'h']
    } else if i == 5 {
        seq!['F', 'r']
    } else {
        seq!['S', 'a']
    }
}

/// The day-of-week label of column `i` (Sunday first).
pub fn dow_label(i: usize) -> (r: String)
    ensures
        r@ == dow_label_spec(i as int),
{
    let (a, b) = match i {
        0 => ('S', 'u'),
        1 => ('M', 'o'),
        2 => ('T', 'u'),
        3 => ('W', 'e'),
        4 => ('T', 'h'),
        5 => ('F', 'r'),
        _ => ('S', 'a'),
    };
    let mut s = String::new();
    push_char(&mut s, a);
    push_char(&mut s, b);
    assert(s@ =~= dow_label_spec(i as int));
    s
}

/// Color of the picker's text.
pub open spec fn picker_text_color(d: DatePicker, theme: Theme) -> crate::color::Color {
    if d.disabled {
        theme.text_disabled
    } else {
        theme.text_primary
    }
}

/// The first `k` day-of-week labels, centred in their columns below the
/// header (`dow_w[i]` is the width of label `i`).
pub open spec fn dow_ops(theme: Theme, x: i32, y: i32, text_h: u32, dow_w: Seq<u32>, k: nat) -> Seq<DrawCmd>
    decreases k,
{
    if k == 0 {
        Seq::empty()
    } else {
        dow_ops(theme, x, y, text_h, dow_w, (k - 1) as nat) + seq![
            DrawCmd::Text {
                text: dow_label_spec(k - 1),
                x: (x + (k - 1) * CELL_SIZE + center_spec(CELL_SIZE, dow_w[k - 1])) as i32,
                y: (y + HEADER_HEIGHT + center_spec(DOW_HEIGHT, text_h)) as i32,
                font_size: theme.font_size_sm,
                color: theme.text_secondary,
            },
        ]
    }
}

/// What day `day` draws in its grid cell: the selection fill when it is
/// the selected day, then its number centred in the cell (`num_w` wide).
pub open spec fn day_ops(d: DatePicker, theme: Theme, x: i32, y: i32, text_h: u32, num_w: u32, day: int) -> Seq<
    DrawCmd,
> {
    let cell = day_cell_spec(first_dow_spec(d.year, d.month), day);
    let cx = x + cell.0 * CELL_SIZE;
    let cy = y + HEADER_HEIGHT + DOW_HEIGHT + cell.1 * CELL_SIZE;
    let sel = d.selected_day == day;
    (if sel {
        seq![
            DrawCmd::FillRect {
                x: cx as i32,
                y: cy as i32,
                w: CELL_SIZE,
                h: CELL_SIZE,
                color: if d.disabled {
                    theme.text_disabled
                } else {
                    theme.accent
                },
            },
        ]
    } else {
        Seq::empty()
    }) + seq![
        DrawCmd::Text {
            text: decimal(day as nat),
            x: (cx + center_spec(CELL_SIZE, num_w)) as i32,
            y: (cy + center_spec(CELL_SIZE, text_h)) as i32,
            font_size: theme.font_size_sm,
            color: if sel {
                theme.background
            } else {
                picker_text_color(d, theme)
            },
        },
    ]
}

/// The first `k` days of the month (`day_w[i]` is the width of day
/// `i + 1`'s number).
pub open spec fn days_ops(d: DatePicker, theme: Theme, x: i32, y: i32, text_h: u32, day_w: Seq<u32>, k: nat) -> Seq<
    DrawCmd,
>
    decreases k,
{
    if k == 0 {
        Seq::empty()
    } else {
        days_ops(d, theme, x, y, text_h, day_w, (k - 1) as nat) + day_ops(d, theme, x, y, text_h, day_w[k - 1], k as int)
    }
}

/// Everything a date picker draws at `(x, y)` with width `w`, given the
/// text height and the measured widths of the header text, of `>`, of the
/// seven day-of-week labels and of each day's number: the header with its
/// arrows, the day-of-week row and the line under it, then the day grid.
pub open spec fn picker_ops(
    d: DatePicker,
    theme: Theme,
    x: i32,
    y: i32,
    w: u32,
    text_h: u32,
    header_w: u32,
    gt_w: u32,
    dow_w: Seq<u32>,
    day_w: Seq<u32>,
) -> Seq<DrawCmd> {
    let fs = theme.font_size_sm;
    let tc = picker_text_color(d, theme);
    let hy = y + center_spec(HEADER_HEIGHT, text_h);
    seq![
        DrawCmd::Text {
            text: month_name_spec(d.month) + seq![' '] + decimal(d.year as nat),
            x: (x + center_spec(w, header_w)) as i32,
            y: hy as i32,
            font_size: fs,
            color: tc,
        },
        DrawCmd::Text { text: seq!['<'], x: (x + 4) as i32, y: hy as i32, font_size: fs, color: tc },
        DrawCmd::Text { text: seq!['>'], x: (x + w - 4 - gt_w) as i32, y: hy as i32, font_size: fs, color: tc },
    ] + dow_ops(theme, x, y, text_h, dow_w, 7) + seq![
        DrawCmd::FillRect {
            x,
            y: (y + HEADER_HEIGHT + DOW_HEIGHT - 1) as i32,
            w,
            h: 1,
            color: theme.border,
        },
    ] + days_ops(d, theme, x, y, text_h, day_w, days_in_month_spec(d.year, d.month) as nat)
}

/// Whether drawing the picker at `(x, y)` with width `w` stays inside
/// `i32` arithmetic, for a displayed month in range.
pub open spec fn picker_draw_fits(
    d: DatePicker,
    x: i32,
    y: i32,
    w: u32,
    text_h: u32,
    header_w: u32,
    gt_w: u32,
    dow_w: Seq<u32>,
    day_w: Seq<u32>,
) -> bool {
    &&& 1 <= d.month <= 12
    &&& w < i32::MAX
    &&& x + w <= i32::MAX
    &&& x + 7 * CELL_SIZE <= i32::MAX
    &&& gt_w <= i32::MAX
    &&& x - 4 - gt_w >= i32::MIN
    &&& header_w <= i32::MAX
    &&& text_h <= i32::MAX
    &&& y + HEADER_HEIGHT + DOW_HEIGHT + 6 * CELL_SIZE <= i32::MAX
    &&& dow_w.len() == 7
    &&& day_w.len() == days_in_month_spec(d.year, d.month)
    &&& forall|i: int| 0 <= i < 7 ==> #[trigger] dow_w[i] <= i32::MAX
    &&& forall|i: int| 0 <= i < day_w.len() ==> #[trigger] day_w[i] <= i32::MAX
}

impl DatePicker {
    /// What drawing the picker at `(x, y)` with width `w` asks the renderer
    /// to draw, given the text height and the measured widths of the header
    /// text, of `>`, of the seven day-of-week labels (`dow_widths`) and of
    /// each day's number (`day_widths[d - 1]` for day `d`).
    #[verifier::rlimit(50)]
    pub fn draw(
        &self,
        theme: &Theme,
        x: i32,
        y: i32,
        w: u32,
        text_h: u32,
        header_w: u32,
        gt_w: u32,
        dow_widths: &Vec<u32>,
        day_widths: &Vec<u32>,
    ) -> (r: Vec<DrawOp>)
        requires
            picker_draw_fits(*self, x, y, w, text_h, header_w, gt_w, dow_widths@, day_widths@),
        ensures
            cmds(r@) == picker_ops(*self, *theme, x, y, w, text_h, header_w, gt_w, dow_widths@, day_widths@),
    {
        let fs = theme.font_size_sm;
        let tc = theme.interactive_text(self.disabled);
        let mut out: Vec<DrawOp> = Vec::new();
        assert(center_in_range(HEADER_HEIGHT, text_h));
        let hy = y + center(HEADER_HEIGHT, text_h);
        assert(center_in_range(w, header_w));
        let hx = x + center(w, header_w);
        out.push(DrawOp::Text { text: self.header_text(), x: hx, y: hy, font_size: fs, color: tc });
        let mut lt = String::new();
        push_char(&mut lt, '<');
        out.push(DrawOp::Text { text: lt, x: x + 4, y: hy, font_size: fs, color: tc });
        let mut gt = String::new();
        push_char(&mut gt, '>');
        out.push(DrawOp::Text { text: gt, x: x + w as i32 - 4 - gt_w as i32, y: hy, font_size: fs, color: tc });
        let ghost head = cmds(out@);
        assert(center_in_range(DOW_HEIGHT, text_h));
        let dty = y + HEADER_HEIGHT as i32 + center(DOW_HEIGHT, text_h);
        let mut i: usize = 0;
        while i < 7
            invariant
                i <= 7,
                picker_draw_fits(*self, x, y, w, text_h, header_w, gt_w, dow_widths@, day_widths@),
                fs == theme.font_size_sm,
                dty == y + HEADER_HEIGHT + center_spec(DOW_HEIGHT, text_h),
                cmds(out@) == head + dow_ops(*theme, x, y, text_h, dow_widths@, i as nat),
            decreases 7 - i,
        {
            assert(center_in_range(CELL_SIZE, dow_widths@[i as int]));
            let tx = x + (i as u32 * CELL_SIZE) as i32 + center(CELL_SIZE, dow_widths[i]);
            let op = DrawOp::Text { text: dow_label(i), x: tx, y: dty, font_size: fs, color: theme.text_secondary };
            proof {
                lemma_cmds_push(out@, op);
            }
            out.push(op);
            i = i + 1;
        }
        let sep = DrawOp::FillRect {
            x,
            y: y + (HEADER_HEIGHT + DOW_HEIGHT) as i32 - 1,
            w,
            h: 1,
            color: theme.border,
        };
        proof {
            lemma_cmds_push(out@, sep);
        }
        out.push(sep);
        let ghost upper = cmds(out@);
        let days = days_in_month(self.year, self.month);
        assert(center_in_range(CELL_SIZE, text_h));
        let cty = center(CELL_SIZE, text_h);
        let grid_y = y + (HEADER_HEIGHT + DOW_HEIGHT) as i32;
        let mut day: u8 = 1;
        while day <= days
            invariant
                1 <= day <= days + 1,
                days == days_in_month_spec(self.year, self.month),
                28 <= days <= 31,
                1 <= self.month <= 12,
                picker_draw_fits(*self, x, y, w, text_h, header_w, gt_w, dow_widths@, day_widths@),
                fs == theme.font_size_sm,
                tc == picker_text_color(*self, *theme),
                cty == center_spec(CELL_SIZE, text_h),
                0 <= cty <= CELL_SIZE,
                grid_y == y + HEADER_HEIGHT + DOW_HEIGHT,
                cmds(out@) == upper + days_ops(*self, *theme, x, y, text_h, day_widths@, (day - 1) as nat),
            decreases days + 1 - day,
        {
            let (col, row) = self.day_cell(day);
            let cx = x + (col * CELL_SIZE) as i32;
            let cy = grid_y + (row * CELL_SIZE) as i32;
            let sel = self.selected_day == day;
            let mut ops: Vec<DrawOp> = Vec::new();
            if sel {
                ops.push(
                    DrawOp::FillRect {
                        x: cx,
                        y: cy,
                        w: CELL_SIZE,
                        h: CELL_SIZE,
                        color: theme.interactive_accent(self.disabled),
                    },
                );
            }
            let mut label = String::new();
            push_decimal(&mut label, day as u32);
            assert(label@ =~= decimal(day as nat));
            let nw = day_widths[(day - 1) as usize];
            assert(center_in_range(CELL_SIZE, nw));
            ops.push(
                DrawOp::Text {
                    text: label,
                    x: cx + center(CELL_SIZE, nw),
                    y: cy + cty,
                    font_size: fs,
                    color: if sel {
                        theme.background
                    } else {
                        tc
                    },
                },
            );
            assert(cmds(ops@) =~= day_ops(*self, *theme, x, y, text_h, nw, day as int));
            proof {
                lemma_cmds_add(out@, ops@);
            }
            out.append(&mut ops);
            day = day + 1;
        }
        assert(cmds(out@) =~= picker_ops(*self, *theme, x, y, w, text_h, header_w, gt_w, dow_widths@, day_widths@));
        out
    }

    /// The grid cell, as (column, row), of day `day` of the displayed
    /// month; a month always fits in six rows.
    pub fn day_cell(&self, day: u8) -> (r: (u32, u32))
        requires
            1 <= self.month <= 12,
            1 <= day <= days_in_month_spec(self.year, self.month),
        ensures
            r.0 == day_cell_spec(first_dow_spec(self.year, self.month), day as int).0,
            r.1 == day_cell_spec(first_dow_spec(self.year, self.month), day as int).1,
            r.0 < 7,
            r.1 < 6,
    {
        let start = first_dow(self.year, self.month) as u32;
        let idx: u32 = start + (day - 1) as u32;
        assert(idx <= 36);
        (idx % 7, idx / 7)
    }
}

impl Widget for DatePicker {
    /// Seven day columns wide; header, day-of-week labels and six weeks tall.
    fn measure(&self, available_w: u32, available_h: u32) -> (r: (u32, u32))
        ensures
            r.0 == CELL_SIZE * 7,
            r.1 == HEADER_HEIGHT + DOW_HEIGHT + CELL_SIZE * 6,
    {
        (CELL_SIZE * 7, HEADER_HEIGHT + DOW_HEIGHT + CELL_SIZE * 6)
    }
}

} // verus!
