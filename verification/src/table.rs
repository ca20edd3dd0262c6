//! Table: columns, rows, selection, scrolling and sorting by a column.
use crate::color::Color;
use crate::draw::{cmds, lemma_cmds_add, lemma_cmds_push, DrawCmd, DrawOp};
use crate::layout::{center, center_in_range, center_spec};
use crate::sums::{all_nonneg, lemma_sum_prefix_bounds, lemma_sum_take_all, lemma_sum_take_step, sum_of};
use crate::theme::Theme;
use crate::text::push_char;
use vstd::prelude::*;
use vstd::string::StrSliceExecFns;

verus! {

/// Height of a body row in pixels.
pub const ROW_HEIGHT: u32 = 18;

/// Height of the header row in pixels.
pub const HEADER_HEIGHT: u32 = 20;

/// Sort direction for a column.
#[derive(Debug, Clone, Copy, PartialEq, Eq, Structural)]
pub enum SortDirection {
    /// Smallest first.
    Ascending,
    /// Largest first.
    Descending,
}

/// A column definition.
#[derive(Debug, Clone)]
pub struct Column {
    /// Column header text.
    pub label: String,
    /// Fixed width in pixels (0 = share the remaining space).
    pub width: u32,
}

impl Column {
    /// Create a column with the given label and width.
    pub fn new(label: &str, width: u32) -> (r: Self)
        ensures
            r.label@ == label@,
            r.width == width,
    {
        Column { label: label.to_string(), width }
    }
}

/// A multi-column data grid.
pub struct Table {
    /// Column definitions.
    pub columns: Vec<Column>,
    /// Row data (each row holds one cell string per column).
    pub rows: Vec<Vec<String>>,
    /// Index of the selected row, if any.
    pub selected_row: Option<usize>,
    /// Index of the first visible row.
    pub scroll_offset: usize,
    /// Whether the header row is shown.
    pub show_header: bool,
    /// Sort state: column index and direction.
    pub sort: Option<(usize, SortDirection)>,
    /// Whether the table ignores input.
    pub disabled: bool,
}

/// Lexicographic order on character sequences, compared from position `i`
/// on: the first differing character decides, and a proper prefix comes
/// first.
pub open spec fn lex_lt_from(a: Seq<char>, b: Seq<char>, i: nat) -> bool
    decreases a.len() - i,
{
    if i >= a.len() {
        i < b.len()
    } else if i >= b.len() {
        false
    } else if a[i as int] != b[i as int] {
        (a[i as int] as int) < (b[i as int] as int)
    } else {
        lex_lt_from(a, b, i + 1)
    }
}

/// Lexicographic "less than" on character sequences (code point order, the
/// order of `str::cmp`).
pub open spec fn lex_lt(a: Seq<char>, b: Seq<char>) -> bool {
    lex_lt_from(a, b, 0)
}

/// The sort key of a row: its cell in column `col`, or empty when the row
/// is short.
pub open spec fn row_key(r: Vec<String>, col: usize) -> Seq<char> {
    if col < r@.len() {
        r@[col as int]@
    } else {
        Seq::empty()
    }
}

/// Whether row `a` belongs strictly after row `b` when sorting by column
/// `col` in direction `dir`.
pub open spec fn row_after(a: Vec<String>, b: Vec<String>, col: usize, dir: SortDirection) -> bool {
    match dir {
        SortDirection::Ascending => lex_lt(row_key(b, col), row_key(a, col)),
        SortDirection::Descending => lex_lt(row_key(a, col), row_key(b, col)),
    }
}

/// Insert `x` into `p`, scanning from the back past every row that belongs
/// strictly after `x`.
pub open spec fn insert_row(p: Seq<Vec<String>>, x: Vec<String>, col: usize, dir: SortDirection) -> Seq<
    Vec<String>,
>
    decreases p.len(),
{
    if p.len() == 0 {
        seq![x]
    } else if row_after(p.last(), x, col, dir) {
        insert_row(p.drop_last(), x, col, dir).push(p.last())
    } else {
        p.push(x)
    }
}

/// The stable sort of `s` by column `col` in direction `dir`: rows with equal
/// keys keep their relative order.
pub open spec fn sort_rows(s: Seq<Vec<String>>, col: usize, dir: SortDirection) -> Seq<Vec<String>>
    decreases s.len(),
{
    if s.len() == 0 {
        s
    } else {
        insert_row(sort_rows(s.drop_last(), col, dir), s.last(), col, dir)
    }
}

/// The direction a sort by `col` takes: a second sort by the column that is
/// sorted ascending reverses it; otherwise ascending.
pub open spec fn next_direction(sort: Option<(usize, SortDirection)>, col: usize) -> SortDirection {
    match sort {
        Some((c, SortDirection::Ascending)) => if c == col {
            SortDirection::Descending
        } else {
            SortDirection::Ascending
        },
        _ => SortDirection::Ascending,
    }
}

/// Number of body rows that fit in a table `h` pixels tall.
pub open spec fn visible_rows_spec(show_header: bool, h: u32) -> int {
    let header = if show_header {
        HEADER_HEIGHT as int
    } else {
        0
    };
    let body = if h >= header {
        h - header
    } else {
        0
    };
    body / (ROW_HEIGHT as int)
}

/// Whether `a` comes before `b` in code point order.
pub fn str_less(a: &str, b: &str) -> (r: bool)
    ensures
        r == lex_lt(a@, b@),
{
    let la = a.unicode_len();
    let lb = b.unicode_len();
    let mut i: usize = 0;
    while i < la && i < lb
        invariant
            la == a@.len(),
            lb == b@.len(),
            0 <= i <= la,
            i <= lb,
            lex_lt(a@, b@) == lex_lt_from(a@, b@, i as nat),
        decreases la - i,
    {
        let ca = a.get_char(i);
        let cb = b.get_char(i);
        if ca != cb {
            return (ca as u32) < (cb as u32);
        }
        i = i + 1;
    }
    i == la && i < lb
}

/// The sort key of a row, as the comparison reads it.
fn key_of(r: &Vec<String>, col: usize) -> (k: &str)
    ensures
        k@ == row_key(*r, col),
{
    if col < r.len() {
        r[col].as_str()
    } else {
        proof {
            reveal_strlit("");
        }
        ""
    }
}

/// Whether row `a` belongs strictly after row `b`.
fn after(a: &Vec<String>, b: &Vec<String>, col: usize, dir: SortDirection) -> (r: bool)
    ensures
        r == row_after(*a, *b, col, dir),
{
    let ka = key_of(a, col);
    let kb = key_of(b, col);
    match dir {
        SortDirection::Ascending => str_less(kb, ka),
        SortDirection::Descending => str_less(ka, kb),
    }
}

/// Inserting at the scan position is the insertion of the model.
proof fn lemma_insert_at(p: Seq<Vec<String>>, x: Vec<String>, col: usize, dir: SortDirection, k: int)
    requires
        0 <= k <= p.len(),
        forall|j: int| k <= j < p.len() ==> row_after(#[trigger] p[j], x, col, dir),
        k > 0 ==> !row_after(p[k - 1], x, col, dir),
    ensures
        insert_row(p, x, col, dir) == p.insert(k, x),
    decreases p.len(),
{
    if p.len() == 0 {
        assert(p.insert(k, x) =~= seq![x]);
    } else if row_after(p.last(), x, col, dir) {
        assert(k < p.len());
        let q = p.drop_last();
        assert forall|j: int| k <= j < q.len() implies row_after(#[trigger] q[j], x, col, dir) by {
            assert(q[j] == p[j]);
        }
        lemma_insert_at(q, x, col, dir, k);
        assert(q.insert(k, x).push(p.last()) =~= p.insert(k, x));
    } else {
        assert(k == p.len());
        assert(p.push(x) =~= p.insert(k, x));
    }
}

/// Whether `s` is ordered for a sort by column `col` in direction `dir`:
/// no row belongs after a later one.
pub open spec fn rows_sorted(s: Seq<Vec<String>>, col: usize, dir: SortDirection) -> bool {
    forall|i: int, j: int| 0 <= i < j < s.len() ==> !row_after(#[trigger] s[i], #[trigger] s[j], col, dir)
}

/// Lexicographic order is asymmetric.
pub proof fn lemma_lex_asymmetric(a: Seq<char>, b: Seq<char>, i: nat)
    requires
        lex_lt_from(a, b, i),
    ensures
        !lex_lt_from(b, a, i),
    decreases a.len() - i,
{
    if i < a.len() && i < b.len() && a[i as int] == b[i as int] {
        lemma_lex_asymmetric(a, b, i + 1);
    }
}

/// Lexicographic order is negatively transitive: if `c < a` then `b < a`
/// or `c < b`, whatever `b` is.
pub proof fn lemma_lex_negatively_transitive(a: Seq<char>, b: Seq<char>, c: Seq<char>, i: nat)
    requires
        lex_lt_from(c, a, i),
    ensures
        lex_lt_from(b, a, i) || lex_lt_from(c, b, i),
    decreases c.len() - i,
{
    if i >= c.len() {
        assert(i < a.len());
    } else {
        assert(i < a.len());
        if i < b.len() {
            let (ca, cb, cc) = (a[i as int] as int, b[i as int] as int, c[i as int] as int);
            if cc == ca && cb == ca {
                assert(c[i as int] == a[i as int] && b[i as int] == a[i as int]);
                lemma_lex_negatively_transitive(a, b, c, i + 1);
            } else if cb < ca {
                assert(b[i as int] != a[i as int]);
            } else if cc < cb {
                assert(c[i as int] != b[i as int]);
            } else {
                assert(cc == ca) by {
                    if cc != ca {
                        assert(c[i as int] != a[i as int]);
                    }
                }
                assert(cb == ca);
            }
        }
    }
}

/// "Does not belong after" is transitive.
proof fn lemma_not_after_transitive(
    a: Vec<String>,
    b: Vec<String>,
    c: Vec<String>,
    col: usize,
    dir: SortDirection,
)
    requires
        !row_after(a, b, col, dir),
        !row_after(b, c, col, dir),
    ensures
        !row_after(a, c, col, dir),
{
    let (ka, kb, kc) = (row_key(a, col), row_key(b, col), row_key(c, col));
    match dir {
        SortDirection::Ascending => {
            if lex_lt(kc, ka) {
                lemma_lex_negatively_transitive(ka, kb, kc, 0);
            }
        },
        SortDirection::Descending => {
            if lex_lt(ka, kc) {
                lemma_lex_negatively_transitive(kc, kb, ka, 0);
            }
        },
    }
}

/// "Belongs after" is asymmetric.
proof fn lemma_after_asymmetric(a: Vec<String>, b: Vec<String>, col: usize, dir: SortDirection)
    requires
        row_after(a, b, col, dir),
    ensures
        !row_after(b, a, col, dir),
{
    match dir {
        SortDirection::Ascending => lemma_lex_asymmetric(row_key(b, col), row_key(a, col), 0),
        SortDirection::Descending => lemma_lex_asymmetric(row_key(a, col), row_key(b, col), 0),
    }
}

/// Inserting a row adds it to the rows.
proof fn lemma_insert_row_multiset(p: Seq<Vec<String>>, x: Vec<String>, col: usize, dir: SortDirection)
    ensures
        insert_row(p, x, col, dir).to_multiset() == p.to_multiset().insert(x),
    decreases p.len(),
{
    broadcast use vstd::seq_lib::group_to_multiset_ensures;

    if p.len() > 0 && row_after(p.last(), x, col, dir) {
        let init = p.drop_last();
        lemma_insert_row_multiset(init, x, col, dir);
        assert(init.push(p.last()) =~= p);
        assert(insert_row(p, x, col, dir).to_multiset() =~= p.to_multiset().insert(x));
    }
}

/// Every row of an insertion is the inserted row or one of the old rows.
proof fn lemma_insert_row_members(p: Seq<Vec<String>>, x: Vec<String>, col: usize, dir: SortDirection)
    ensures
        insert_row(p, x, col, dir).len() == p.len() + 1,
        forall|k: int|
            0 <= k < p.len() + 1 ==> #[trigger] insert_row(p, x, col, dir)[k] == x || exists|j: int|
                0 <= j < p.len() && p[j] == insert_row(p, x, col, dir)[k],
    decreases p.len(),
{
    if p.len() > 0 && row_after(p.last(), x, col, dir) {
        let init = p.drop_last();
        lemma_insert_row_members(init, x, col, dir);
        let r = insert_row(p, x, col, dir);
        assert forall|k: int| 0 <= k < p.len() + 1 implies #[trigger] r[k] == x || exists|j: int|
            0 <= j < p.len() && p[j] == r[k] by {
            if k < p.len() {
                let ri = insert_row(init, x, col, dir);
                assert(r[k] == ri[k]);
                if ri[k] != x {
                    let j = choose|j: int| 0 <= j < init.len() && init[j] == ri[k];
                    assert(p[j] == r[k]);
                }
            } else {
                assert(r[k] == p.last());
                assert(p[p.len() - 1] == r[k]);
            }
        }
    }
}

/// Inserting into ordered rows keeps them ordered.
proof fn lemma_insert_row_sorted(p: Seq<Vec<String>>, x: Vec<String>, col: usize, dir: SortDirection)
    requires
        rows_sorted(p, col, dir),
    ensures
        rows_sorted(insert_row(p, x, col, dir), col, dir),
    decreases p.len(),
{
    let r = insert_row(p, x, col, dir);
    if p.len() == 0 {
    } else if row_after(p.last(), x, col, dir) {
        let init = p.drop_last();
        let last = p.last();
        lemma_insert_row_sorted(init, x, col, dir);
        lemma_insert_row_members(init, x, col, dir);
        let ri = insert_row(init, x, col, dir);
        assert forall|i: int, j: int| 0 <= i < j < r.len() implies !row_after(
            #[trigger] r[i],
            #[trigger] r[j],
            col,
            dir,
        ) by {
            if j < r.len() - 1 {
                assert(r[i] == ri[i] && r[j] == ri[j]);
            } else {
                assert(r[j] == last);
                assert(r[i] == ri[i]);
                if ri[i] == x {
                    lemma_after_asymmetric(last, x, col, dir);
                } else {
                    let k = choose|k: int| 0 <= k < init.len() && init[k] == ri[i];
                    assert(p[k] == ri[i] && p[p.len() - 1] == last);
                }
            }
        }
    } else {
        let last = p.last();
        assert forall|i: int, j: int| 0 <= i < j < r.len() implies !row_after(
            #[trigger] r[i],
            #[trigger] r[j],
            col,
            dir,
        ) by {
            if j < p.len() {
                assert(r[i] == p[i] && r[j] == p[j]);
            } else {
                assert(r[j] == x);
                assert(r[i] == p[i]);
                if i < p.len() - 1 {
                    assert(!row_after(p[i], p[p.len() - 1], col, dir));
                    lemma_not_after_transitive(p[i], last, x, col, dir);
                }
            }
        }
    }
}

/// Sorting by a column orders the rows and keeps exactly the same rows
/// (with their multiplicities).
pub proof fn lemma_sort_rows_sorted_permutation(s: Seq<Vec<String>>, col: usize, dir: SortDirection)
    ensures
        rows_sorted(sort_rows(s, col, dir), col, dir),
        sort_rows(s, col, dir).to_multiset() == s.to_multiset(),
    decreases s.len(),
{
    broadcast use vstd::seq_lib::group_to_multiset_ensures;

    if s.len() > 0 {
        let init = s.drop_last();
        lemma_sort_rows_sorted_permutation(init, col, dir);
        lemma_insert_row_sorted(sort_rows(init, col, dir), s.last(), col, dir);
        lemma_insert_row_multiset(sort_rows(init, col, dir), s.last(), col, dir);
        assert(init.push(s.last()) =~= s);
    }
}

/// Sorting keeps the number of rows.
pub proof fn lemma_sort_rows_len(s: Seq<Vec<String>>, col: usize, dir: SortDirection)
    ensures
        sort_rows(s, col, dir).len() == s.len(),
    decreases s.len(),
{
    if s.len() > 0 {
        lemma_sort_rows_len(s.drop_last(), col, dir);
        lemma_insert_row_members(sort_rows(s.drop_last(), col, dir), s.last(), col, dir);
    }
}

/// The fixed widths of the columns (zero for a column that shares the
/// remaining space).
pub open spec fn fixed_widths(cols: Seq<Column>) -> Seq<int> {
    Seq::new(cols.len(), |i: int| cols[i].width as int)
}

/// Number of columns that share the remaining space.
pub open spec fn auto_count(cols: Seq<Column>) -> int
    decreases cols.len(),
{
    if cols.len() == 0 {
        0
    } else {
        auto_count(cols.drop_last()) + if cols.last().width == 0 {
            1int
        } else {
            0int
        }
    }
}

/// Width each sharing column gets in a table `w` pixels wide: an equal,
/// rounded-down share of what the fixed columns leave, or zero.
pub open spec fn auto_width(cols: Seq<Column>, w: int) -> int {
    let fixed = sum_of(fixed_widths(cols));
    let n = auto_count(cols);
    if n > 0 && w > fixed {
        (w - fixed) / n
    } else {
        0
    }
}

/// Column widths once every sharing column gets `share` pixels.
pub open spec fn resolved_widths(cols: Seq<Column>, share: int) -> Seq<int> {
    Seq::new(
        cols.len(),
        |i: int|
            if cols[i].width == 0 {
                share
            } else {
                cols[i].width as int
            },
    )
}

/// The sort marker shown after the label of column `i`.
pub open spec fn sort_marker(sort: Option<(usize, SortDirection)>, i: int) -> Seq<char> {
    match sort {
        Some((c, SortDirection::Ascending)) => if c == i {
            seq![' ', '^']
        } else {
            Seq::empty()
        },
        Some((c, SortDirection::Descending)) => if c == i {
            seq![' ', 'v']
        } else {
            Seq::empty()
        },
        None => Seq::empty(),
    }
}

/// Resolving the widths adds one share per sharing column to the fixed
/// widths.
pub proof fn lemma_resolved_sum(cols: Seq<Column>, share: int)
    ensures
        sum_of(resolved_widths(cols, share)) == sum_of(fixed_widths(cols)) + auto_count(cols)
            * share,
        auto_count(cols) >= 0,
    decreases cols.len(),
{
    if cols.len() > 0 {
        let d = cols.drop_last();
        lemma_resolved_sum(d, share);
        assert(resolved_widths(cols, share).drop_last() =~= resolved_widths(d, share));
        assert(fixed_widths(cols).drop_last() =~= fixed_widths(d));
        assert((auto_count(d) + 1) * share == auto_count(d) * share + share) by (nonlinear_arith);
    }
}

/// A prefix of the fixed widths sums to at most all of them.
proof fn lemma_fixed_prefix(cols: Seq<Column>, i: int)
    requires
        0 <= i <= cols.len(),
    ensures
        0 <= sum_of(fixed_widths(cols).take(i)) <= sum_of(fixed_widths(cols)),
        auto_count(cols.take(i)) <= i,
    decreases cols.len() - i,
{
    let fw = fixed_widths(cols);
    assert(all_nonneg(fw));
    lemma_sum_prefix_bounds(fw, i);
    lemma_auto_count_bound(cols.take(i));
}

/// At most every column shares the remaining space.
proof fn lemma_auto_count_bound(cols: Seq<Column>)
    ensures
        0 <= auto_count(cols) <= cols.len(),
    decreases cols.len(),
{
    if cols.len() > 0 {
        lemma_auto_count_bound(cols.drop_last());
    }
}

/// When the fixed columns fit, the resolved columns never overflow the
/// table's width.
pub proof fn lemma_columns_fit(cols: Seq<Column>, w: int)
    requires
        sum_of(fixed_widths(cols)) <= w,
    ensures
        sum_of(resolved_widths(cols, auto_width(cols, w))) <= w,
{
    let share = auto_width(cols, w);
    let fixed = sum_of(fixed_widths(cols));
    let n = auto_count(cols);
    lemma_resolved_sum(cols, share);
    if n > 0 && w > fixed {
        assert(n * ((w - fixed) / n) <= w - fixed) by (nonlinear_arith)
            requires
                n > 0,
                w - fixed > 0,
        ;
    } else {
        assert(n * 0 == 0) by (nonlinear_arith);
    }
}

/// Widths of the columns of a table `w` pixels wide.
pub open spec fn table_widths(t: Table, w: u32) -> Seq<int> {
    resolved_widths(t.columns@, auto_width(t.columns@, w as int))
}

/// Left edge of column `i` of a table whose left edge is `x`.
pub open spec fn col_left(ws: Seq<int>, x: i32, i: int) -> int {
    x + sum_of(ws.take(i))
}

/// Color of the table's text.
pub open spec fn table_text_color(t: Table, theme: Theme) -> Color {
    if t.disabled {
        theme.text_disabled
    } else {
        theme.text_primary
    }
}

/// The header labels of the first `k` columns, each with its sort marker.
pub open spec fn header_cells_ops(t: Table, theme: Theme, x: i32, y: i32, text_h: u32, ws: Seq<int>, k: nat) -> Seq<
    DrawCmd,
>
    decreases k,
{
    if k == 0 {
        Seq::empty()
    } else {
        header_cells_ops(t, theme, x, y, text_h, ws, (k - 1) as nat) + seq![
            DrawCmd::Text {
                text: t.columns@[k - 1].label@ + sort_marker(t.sort, k - 1),
                x: (col_left(ws, x, k - 1) + 4) as i32,
                y: (y + center_spec(HEADER_HEIGHT, text_h)) as i32,
                font_size: theme.font_size_sm,
                color: table_text_color(t, theme),
            },
        ]
    }
}

/// Top edge of body row `r` (an index into the rows).
pub open spec fn row_top(t: Table, y: i32, r: int) -> int {
    y + (if t.show_header {
        HEADER_HEIGHT as int
    } else {
        0
    }) + (r - t.scroll_offset) * ROW_HEIGHT
}

/// The first `k` cells of row `r`.
pub open spec fn row_cells_ops(t: Table, theme: Theme, x: i32, y: i32, text_h: u32, ws: Seq<int>, r: int, k: nat) -> Seq<
    DrawCmd,
>
    decreases k,
{
    if k == 0 {
        Seq::empty()
    } else {
        row_cells_ops(t, theme, x, y, text_h, ws, r, (k - 1) as nat) + seq![
            DrawCmd::Text {
                text: t.rows@[r]@[k - 1]@,
                x: (col_left(ws, x, k - 1) + 4) as i32,
                y: (row_top(t, y, r) + center_spec(ROW_HEIGHT, text_h)) as i32,
                font_size: theme.font_size_sm,
                color: if t.selected_row == Some(r as usize) {
                    theme.background
                } else {
                    table_text_color(t, theme)
                },
            },
        ]
    }
}

/// Cells drawn in row `r`: one per cell, up to the number of columns.
pub open spec fn row_cell_count(t: Table, r: int) -> nat {
    let n = t.rows@[r]@.len();
    let c = t.columns@.len();
    if n < c {
        n
    } else {
        c
    }
}

/// What body row `r` draws: the selection fill, its cells, and the
/// separator line along its bottom edge.
pub open spec fn row_ops(t: Table, theme: Theme, x: i32, y: i32, w: u32, text_h: u32, ws: Seq<int>, r: int) -> Seq<
    DrawCmd,
> {
    let ry = row_top(t, y, r);
    let sel = if t.selected_row == Some(r as usize) {
        seq![
            DrawCmd::FillRect {
                x,
                y: ry as i32,
                w,
                h: ROW_HEIGHT,
                color: if t.disabled {
                    theme.text_disabled
                } else {
                    theme.accent
                },
            },
        ]
    } else {
        Seq::empty()
    };
    sel + row_cells_ops(t, theme, x, y, text_h, ws, r, row_cell_count(t, r)) + seq![
        DrawCmd::FillRect { x, y: (ry + ROW_HEIGHT - 1) as i32, w, h: 1, color: theme.border },
    ]
}

/// The first `k` visible rows, from the scroll offset on.
pub open spec fn rows_ops(t: Table, theme: Theme, x: i32, y: i32, w: u32, text_h: u32, ws: Seq<int>, k: nat) -> Seq<
    DrawCmd,
>
    decreases k,
{
    if k == 0 {
        Seq::empty()
    } else {
        rows_ops(t, theme, x, y, w, text_h, ws, (k - 1) as nat) + row_ops(
            t,
            theme,
            x,
            y,
            w,
            text_h,
            ws,
            t.scroll_offset + k - 1,
        )
    }
}

/// Rows drawn in a table `h` pixels tall: those from the scroll offset
/// that fit, up to the last row.
pub open spec fn drawn_rows(t: Table, h: u32) -> nat {
    let end = t.scroll_offset + visible_rows_spec(t.show_header, h);
    let last = if end < t.rows@.len() {
        end
    } else {
        t.rows@.len() as int
    };
    if last > t.scroll_offset {
        (last - t.scroll_offset) as nat
    } else {
        0
    }
}

/// Everything a table draws at `(x, y, w, h)`, given the text height: the
/// header row (fill, border, labels with sort markers) when shown, then
/// the visible rows.
pub open spec fn table_ops(t: Table, theme: Theme, x: i32, y: i32, w: u32, h: u32, text_h: u32) -> Seq<DrawCmd> {
    let ws = table_widths(t, w);
    let header = if t.show_header {
        seq![
            DrawCmd::FillRect { x, y, w, h: HEADER_HEIGHT, color: theme.surface },
            DrawCmd::StrokeRect { x, y, w, h: HEADER_HEIGHT, width: 1, color: theme.border },
        ] + header_cells_ops(t, theme, x, y, text_h, ws, t.columns@.len())
    } else {
        Seq::empty()
    };
    header + rows_ops(t, theme, x, y, w, text_h, ws, drawn_rows(t, h))
}

/// Whether drawing the table at `(x, y, w, h)` stays inside `i32`, `u32`
/// and `usize` arithmetic.
pub open spec fn table_draw_fits(t: Table, x: i32, y: i32, w: u32, h: u32, text_h: u32) -> bool {
    &&& sum_of(fixed_widths(t.columns@)) <= u32::MAX
    &&& t.columns@.len() <= u32::MAX
    &&& sum_of(table_widths(t, w)) <= i32::MAX
    &&& x + sum_of(table_widths(t, w)) + 4 <= i32::MAX
    &&& y + h <= i32::MAX
    &&& y + HEADER_HEIGHT <= i32::MAX
    &&& text_h <= i32::MAX
    &&& t.scroll_offset + visible_rows_spec(t.show_header, h) <= usize::MAX
}

/// Row `j` of the rows that fit ends inside the body.
proof fn lemma_row_fits(body: int, j: int)
    requires
        0 <= j < body / (ROW_HEIGHT as int),
        body >= 0,
    ensures
        (j + 1) * (ROW_HEIGHT as int) <= body,
        j * (ROW_HEIGHT as int) + ROW_HEIGHT == (j + 1) * (ROW_HEIGHT as int),
{
    assert((j + 1) * 18 <= body) by (nonlinear_arith)
        requires
            0 <= j < body / 18,
            body >= 0,
    ;
}

impl Table {
    /// Create an enabled table with a header and no rows.
    pub fn new(columns: Vec<Column>) -> (r: Self)
        ensures
            r.columns@ == columns@,
            r.rows@.len() == 0,
            r.selected_row.is_none(),
            r.scroll_offset == 0,
            r.show_header,
            r.sort.is_none(),
            !r.disabled,
    {
        Table {
            columns,
            rows: Vec::new(),
            selected_row: None,
            scroll_offset: 0,
            show_header: true,
            sort: None,
            disabled: false,
        }
    }

    /// Append a row of cells.
    pub fn add_row(&mut self, cells: Vec<String>)
        ensures
            final(self).rows@ == old(self).rows@.push(cells),
            final(self).columns@ == old(self).columns@,
            final(self).selected_row == old(self).selected_row,
            final(self).scroll_offset == old(self).scroll_offset,
            final(self).show_header == old(self).show_header,
            final(self).sort == old(self).sort,
            final(self).disabled == old(self).disabled,
    {
        self.rows.push(cells);
    }

    /// Select the next row, stopping at the last; with nothing selected,
    /// select the first.
    pub fn select_next(&mut self)
        requires
            old(self).selected_row != Some(usize::MAX),
        ensures
            final(self).rows@ == old(self).rows@,
            final(self).scroll_offset == old(self).scroll_offset,
            final(self).disabled == old(self).disabled,
            final(self).columns@ == old(self).columns@,
            final(self).show_header == old(self).show_header,
            final(self).sort == old(self).sort,
            final(self).selected_row == if old(self).disabled || old(self).rows@.len() == 0 {
                old(self).selected_row
            } else {
                match old(self).selected_row {
                    Some(i) => Some(
                        if i + 1 < old(self).rows@.len() {
                            (i + 1) as usize
                        } else {
                            (old(self).rows@.len() - 1) as usize
                        },
                    ),
                    None => Some(0usize),
                }
            },
    {
        if self.disabled || self.rows.len() == 0 {
            return;
        }
        let last = self.rows.len() - 1;
        self.selected_row = match self.selected_row {
            Some(i) => Some(
                if i + 1 < last {
                    i + 1
                } else {
                    last
                },
            ),
            None => Some(0),
        };
    }

    /// Select the previous row, stopping at the first; with nothing
    /// selected, select the first.
    pub fn select_prev(&mut self)
        ensures
            final(self).rows@ == old(self).rows@,
            final(self).scroll_offset == old(self).scroll_offset,
            final(self).disabled == old(self).disabled,
            final(self).columns@ == old(self).columns@,
            final(self).show_header == old(self).show_header,
            final(self).sort == old(self).sort,
            final(self).selected_row == if old(self).disabled || old(self).rows@.len() == 0 {
                old(self).selected_row
            } else {
                match old(self).selected_row {
                    Some(i) => Some(
                        if i > 0 {
                            (i - 1) as usize
                        } else {
                            0usize
                        },
                    ),
                    None => Some(0usize),
                }
            },
    {
        if self.disabled || self.rows.len() == 0 {
            return;
        }
        self.selected_row = match self.selected_row {
            Some(i) => Some(
                if i > 0 {
                    i - 1
                } else {
                    0
                },
            ),
            None => Some(0),
        };
    }

    /// Sort the rows by column `col` (a stable sort on the cell text), and
    /// record the column and direction. Sorting again by the column that is
    /// sorted ascending sorts it descending. Out-of-range columns are
    /// ignored.
    pub fn sort_by_column(&mut self, col: usize)
        ensures
            final(self).columns@ == old(self).columns@,
            final(self).selected_row == old(self).selected_row,
            final(self).scroll_offset == old(self).scroll_offset,
            final(self).disabled == old(self).disabled,
            final(self).show_header == old(self).show_header,
            col >= old(self).columns@.len() ==> final(self).rows@ == old(self).rows@
                && final(self).sort == old(self).sort,
            col < old(self).columns@.len() ==> {
                let dir = next_direction(old(self).sort, col);
                &&& final(self).sort == Some((col, dir))
                &&& final(self).rows@ == sort_rows(old(self).rows@, col, dir)
            },
    {
        if col >= self.columns.len() {
            return;
        }
        let dir = match self.sort {
            Some((c, SortDirection::Ascending)) => if c == col {
                SortDirection::Descending
            } else {
                SortDirection::Ascending
            },
            _ => SortDirection::Ascending,
        };
        self.sort = Some((col, dir));
        let ghost orig = self.rows@;
        let mut src: Vec<Vec<String>> = Vec::new();
        std::mem::swap(&mut src, &mut self.rows);
        let mut out: Vec<Vec<String>> = Vec::new();
        let ghost mut i: int = 0;
        while src.len() > 0
            invariant
                0 <= i <= orig.len(),
                src@ == orig.skip(i),
                out@ == sort_rows(orig.take(i), col, dir),
            decreases src@.len(),
        {
            let x = src.remove(0);
            proof {
                assert(x == orig[i]);
                assert(orig.take(i + 1).drop_last() =~= orig.take(i));
                assert(orig.take(i + 1).last() == orig[i]);
            }
            let mut k: usize = out.len();
            while k > 0 && after(&out[k - 1], &x, col, dir)
                invariant
                    0 <= k <= out@.len(),
                    forall|j: int| k <= j < out@.len() ==> row_after(#[trigger] out@[j], x, col, dir),
                decreases k,
            {
                k = k - 1;
            }
            proof {
                lemma_insert_at(out@, x, col, dir, k as int);
            }
            out.insert(k, x);
            proof {
                assert(orig.skip(i).drop_first() =~= orig.skip(i + 1));
                i = i + 1;
            }
        }
        proof {
            assert(orig.take(i) =~= orig);
        }
        self.rows = out;
    }

    /// Number of body rows that fit in height `h`.
    pub fn visible_rows(&self, h: u32) -> (r: usize)
        ensures
            r == visible_rows_spec(self.show_header, h),
    {
        let header_h = if self.show_header {
            HEADER_HEIGHT
        } else {
            0
        };
        let body_h = h.saturating_sub(header_h);
        (body_h / ROW_HEIGHT) as usize
    }

    /// Width of each column in a table `w` pixels wide: fixed columns keep
    /// their width, the others share what remains equally.
    pub fn column_widths(&self, w: u32) -> (r: Vec<u32>)
        requires
            sum_of(fixed_widths(self.columns@)) <= u32::MAX,
            self.columns@.len() <= u32::MAX,
        ensures
            r@.len() == self.columns@.len(),
            forall|i: int|
                0 <= i < r@.len() ==> #[trigger] r@[i] == resolved_widths(
                    self.columns@,
                    auto_width(self.columns@, w as int),
                )[i],
    {
        let n = self.columns.len();
        let ghost cols = self.columns@;
        let ghost fw = fixed_widths(cols);
        let mut fixed: u32 = 0;
        let mut count: u32 = 0;
        let mut i: usize = 0;
        while i < n
            invariant
                n == cols.len(),
                cols == self.columns@,
                fw == fixed_widths(cols),
                0 <= i <= n,
                fixed == sum_of(fw.take(i as int)),
                count == auto_count(cols.take(i as int)),
                count <= i,
                n <= u32::MAX,
                sum_of(fw) <= u32::MAX,
            decreases n - i,
        {
            proof {
                lemma_sum_take_step(fw, i as int);
                lemma_fixed_prefix(cols, i as int + 1);
                assert(cols.take(i as int + 1).drop_last() =~= cols.take(i as int));
            }
            let cw = self.columns[i].width;
            fixed = fixed + cw;
            if cw == 0 {
                count = count + 1;
            }
            i = i + 1;
        }
        proof {
            lemma_sum_take_all(fw);
            assert(cols.take(n as int) =~= cols);
        }
        let share: u32 = if count > 0 && w > fixed {
            (w - fixed) / count
        } else {
            0
        };
        let mut out: Vec<u32> = Vec::new();
        let mut j: usize = 0;
        while j < n
            invariant
                n == cols.len(),
                cols == self.columns@,
                0 <= j <= n,
                out@.len() == j,
                share == auto_width(cols, w as int),
                forall|k: int|
                    0 <= k < j ==> #[trigger] out@[k] == resolved_widths(cols, share as int)[k],
            decreases n - j,
        {
            let cw = self.columns[j].width;
            if cw == 0 {
                out.push(share);
            } else {
                out.push(cw);
            }
            j = j + 1;
        }
        out
    }

    /// Header text of column `i`: its label, then " ^" or " v" when the
    /// table is sorted by it ascending or descending.
    pub fn header_label(&self, i: usize) -> (r: String)
        requires
            i < self.columns@.len(),
        ensures
            r@ == self.columns@[i as int].label@ + sort_marker(self.sort, i as int),
    {
        let mut s = String::from_str(self.columns[i].label.as_str());
        match self.sort {
            Some((c, SortDirection::Ascending)) => {
                if c == i {
                    push_char(&mut s, ' ');
                    push_char(&mut s, '^');
                }
            },
            Some((c, SortDirection::Descending)) => {
                if c == i {
                    push_char(&mut s, ' ');
                    push_char(&mut s, 'v');
                }
            },
            None => {},
        }
        assert(s@ =~= self.columns@[i as int].label@ + sort_marker(self.sort, i as int));
        s
    }

    /// What drawing the table at `(x, y, w, h)` asks the renderer to draw,
    /// given the text height.
    #[verifier::rlimit(80)]
    pub fn draw(&self, theme: &Theme, x: i32, y: i32, w: u32, h: u32, text_h: u32) -> (r: Vec<DrawOp>)
        requires
            table_draw_fits(*self, x, y, w, h, text_h),
        ensures
            cmds(r@) == table_ops(*self, *theme, x, y, w, h, text_h),
    {
        let fs = theme.font_size_sm;
        let text_color = theme.interactive_text(self.disabled);
        let widths = self.column_widths(w);
        let ghost ws = table_widths(*self, w);
        let ncols = self.columns.len();
        assert(widths@.len() == ws.len());
        assert forall|i: int| 0 <= i < ws.len() implies #[trigger] ws[i] == widths@[i] && 0 <= ws[i] by {
            assert(widths@[i] == resolved_widths(self.columns@, auto_width(self.columns@, w as int))[i]);
        }
        assert(all_nonneg(ws));
        proof {
            lemma_sum_take_all(ws);
        }
        let mut out: Vec<DrawOp> = Vec::new();
        let mut top: i32 = y;
        if self.show_header {
            out.push(DrawOp::FillRect { x, y, w, h: HEADER_HEIGHT, color: theme.surface });
            out.push(DrawOp::StrokeRect { x, y, w, h: HEADER_HEIGHT, width: 1, color: theme.border });
            assert(center_in_range(HEADER_HEIGHT, text_h));
            let ty = y + center(HEADER_HEIGHT, text_h);
            let ghost frame = cmds(out@);
            let mut cx: i32 = x;
            let mut i: usize = 0;
            while i < ncols
                invariant
                    ncols == self.columns@.len(),
                    widths@.len() == ncols,
                    ws.len() == ncols,
                    forall|k: int| 0 <= k < ws.len() ==> #[trigger] ws[k] == widths@[k],
                    all_nonneg(ws),
                    sum_of(ws.take(ncols as int)) == sum_of(ws),
                    table_draw_fits(*self, x, y, w, h, text_h),
                    ws == table_widths(*self, w),
                    i <= ncols,
                    fs == theme.font_size_sm,
                    text_color == table_text_color(*self, *theme),
                    ty == y + center_spec(HEADER_HEIGHT, text_h),
                    cx == col_left(ws, x, i as int),
                    cmds(out@) == frame + header_cells_ops(*self, *theme, x, y, text_h, ws, i as nat),
                decreases ncols - i,
            {
                proof {
                    lemma_sum_take_step(ws, i as int);
                    lemma_sum_prefix_bounds(ws, i as int + 1);
                    lemma_sum_prefix_bounds(ws, i as int);
                }
                let label = self.header_label(i);
                let op = DrawOp::Text { text: label, x: cx + 4, y: ty, font_size: fs, color: text_color };
                proof {
                    lemma_cmds_push(out@, op);
                }
                out.push(op);
                cx = cx + widths[i] as i32;
                i = i + 1;
            }
            top = y + HEADER_HEIGHT as i32;
        }
        let ghost head = cmds(out@);
        let ghost body = if self.show_header {
            if h >= HEADER_HEIGHT {
                h - HEADER_HEIGHT
            } else {
                0
            }
        } else {
            h as int
        };
        let visible = self.visible_rows(h);
        let end0 = self.scroll_offset + visible;
        let end = if end0 < self.rows.len() {
            end0
        } else {
            self.rows.len()
        };
        assert(center_in_range(ROW_HEIGHT, text_h));
        let rty = center(ROW_HEIGHT, text_h);
        assert(0 <= rty <= ROW_HEIGHT);
        let mut ry: i32 = top;
        let mut r: usize = self.scroll_offset;
        while r < end
            invariant
                ncols == self.columns@.len(),
                widths@.len() == ncols,
                ws.len() == ncols,
                forall|k: int| 0 <= k < ws.len() ==> #[trigger] ws[k] == widths@[k],
                all_nonneg(ws),
                sum_of(ws.take(ncols as int)) == sum_of(ws),
                table_draw_fits(*self, x, y, w, h, text_h),
                ws == table_widths(*self, w),
                fs == theme.font_size_sm,
                text_color == table_text_color(*self, *theme),
                rty == center_spec(ROW_HEIGHT, text_h),
                0 <= rty <= ROW_HEIGHT,
                visible == visible_rows_spec(self.show_header, h),
                visible == body / (ROW_HEIGHT as int),
                body >= 0,
                body > 0 ==> top + body == y + h,
                top == y + (if self.show_header {
                    HEADER_HEIGHT as int
                } else {
                    0
                }),
                end == (if self.scroll_offset + visible < self.rows@.len() {
                    self.scroll_offset + visible
                } else {
                    self.rows@.len() as int
                }),
                self.scroll_offset <= r,
                r <= end || r == self.scroll_offset,
                ry == row_top(*self, y, r as int),
                cmds(out@) == head + rows_ops(*self, *theme, x, y, w, text_h, ws, (r - self.scroll_offset) as nat),
            decreases end - r,
        {
            proof {
                lemma_row_fits(body, r - self.scroll_offset);
            }
            let selected = match self.selected_row {
                Some(sr) => sr == r,
                None => false,
            };
            let mut ops: Vec<DrawOp> = Vec::new();
            if selected {
                ops.push(
                    DrawOp::FillRect { x, y: ry, w, h: ROW_HEIGHT, color: theme.interactive_accent(self.disabled) },
                );
            }
            let ghost sel_part = cmds(ops@);
            let row = &self.rows[r];
            let ncells = if row.len() < ncols {
                row.len()
            } else {
                ncols
            };
            let fg = if selected {
                theme.background
            } else {
                text_color
            };
            let mut cx: i32 = x;
            let mut c: usize = 0;
            while c < ncells
                invariant
                    ncols == self.columns@.len(),
                    widths@.len() == ncols,
                    ws.len() == ncols,
                    forall|k: int| 0 <= k < ws.len() ==> #[trigger] ws[k] == widths@[k],
                    all_nonneg(ws),
                    sum_of(ws.take(ncols as int)) == sum_of(ws),
                    table_draw_fits(*self, x, y, w, h, text_h),
                    ws == table_widths(*self, w),
                    row@ == self.rows@[r as int]@,
                    r < self.rows@.len(),
                    ncells == row_cell_count(*self, r as int),
                    ncells <= ncols,
                    c <= ncells,
                    fs == theme.font_size_sm,
                    fg == (if self.selected_row == Some(r) {
                        theme.background
                    } else {
                        table_text_color(*self, *theme)
                    }),
                    rty == center_spec(ROW_HEIGHT, text_h),
                    0 <= rty <= ROW_HEIGHT,
                    ry == row_top(*self, y, r as int),
                    ry + ROW_HEIGHT <= i32::MAX,
                    cx == col_left(ws, x, c as int),
                    cmds(ops@) == sel_part + row_cells_ops(*self, *theme, x, y, text_h, ws, r as int, c as nat),
                decreases ncells - c,
            {
                proof {
                    lemma_sum_take_step(ws, c as int);
                    lemma_sum_prefix_bounds(ws, c as int + 1);
                    lemma_sum_prefix_bounds(ws, c as int);
                }
                let op = DrawOp::Text { text: row[c].clone(), x: cx + 4, y: ry + rty, font_size: fs, color: fg };
                proof {
                    lemma_cmds_push(ops@, op);
                }
                ops.push(op);
                cx = cx + widths[c] as i32;
                c = c + 1;
            }
            let sep = DrawOp::FillRect { x, y: ry + ROW_HEIGHT as i32 - 1, w, h: 1, color: theme.border };
            proof {
                lemma_cmds_push(ops@, sep);
            }
            ops.push(sep);
            assert(cmds(ops@) =~= row_ops(*self, *theme, x, y, w, text_h, ws, r as int));
            proof {
                lemma_cmds_add(out@, ops@);
            }
            out.append(&mut ops);
            ry = ry + ROW_HEIGHT as i32;
            r = r + 1;
        }
        proof {
            assert((if r >= self.scroll_offset {
                (r - self.scroll_offset) as nat
            } else {
                0nat
            }) == drawn_rows(*self, h));
        }
        out
    }

    /// Scroll just enough that the selected row is among the rows visible in
    /// height `h`.
    pub fn ensure_visible(&mut self, h: u32)
        requires
            match old(self).selected_row {
                Some(sel) => sel < usize::MAX && old(self).scroll_offset + visible_rows_spec(
                    old(self).show_header,
                    h,
                ) <= usize::MAX,
                None => true,
            },
        ensures
            final(self).rows@ == old(self).rows@,
            final(self).selected_row == old(self).selected_row,
            final(self).show_header == old(self).show_header,
            final(self).columns@ == old(self).columns@,
            final(self).sort == old(self).sort,
            final(self).disabled == old(self).disabled,
            final(self).scroll_offset == match old(self).selected_row {
                Some(sel) => {
                    let v = visible_rows_spec(old(self).show_header, h);
                    if v == 0 {
                        old(self).scroll_offset as int
                    } else if sel < old(self).scroll_offset {
                        sel as int
                    } else if sel >= old(self).scroll_offset + v {
                        sel + 1 - v
                    } else {
                        old(self).scroll_offset as int
                    }
                },
                None => old(self).scroll_offset as int,
            },
            match final(self).selected_row {
                Some(sel) => visible_rows_spec(old(self).show_header, h) > 0 ==> (final(self).scroll_offset
                    <= sel && sel < final(self).scroll_offset + visible_rows_spec(old(self).show_header, h)),
                None => true,
            },
    {
        match self.selected_row {
            Some(sel) => {
                let visible = self.visible_rows(h);
                if visible == 0 {
                    return;
                }
                if sel < self.scroll_offset {
                    self.scroll_offset = sel;
                } else if sel >= self.scroll_offset + visible {
                    self.scroll_offset = sel + 1 - visible;
                }
            },
            None => {},
        }
    }
}

} // verus!
