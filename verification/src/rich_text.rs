//! Rich text (lines made of styled spans) and plain text blocks.
use crate::color::Color;
use crate::draw::{cmds, lemma_cmds_add, DrawCmd, DrawOp};
use crate::layout::HAlign;
use crate::sums::{all_nonneg, lemma_sum_prefix_bounds, lemma_sum_take_all, lemma_sum_take_step, sum_of};
use crate::text::{is_whitespace, push_char, white_space};
use crate::theme::Theme;
use vstd::prelude::*;

verus! {

/// A run of text with one style.
pub struct Span {
    /// The text.
    pub text: String,
    /// Drawn twice, one pixel apart.
    pub bold: bool,
    /// Text color; `None` takes the theme's primary text color.
    pub color: Option<Color>,
    /// Font size; `None` takes the theme's medium size.
    pub font_size: Option<u16>,
}

impl Span {
    /// Unstyled text.
    pub fn plain(text: &str) -> (r: Self)
        ensures
            r.text@ == text@,
            !r.bold,
            r.color.is_none(),
            r.font_size.is_none(),
    {
        Span { text: text.to_string(), bold: false, color: None, font_size: None }
    }

    /// Bold text.
    pub fn bold(text: &str) -> (r: Self)
        ensures
            r.text@ == text@,
            r.bold,
            r.color.is_none(),
            r.font_size.is_none(),
    {
        Span { text: text.to_string(), bold: true, color: None, font_size: None }
    }

    /// Text in `color`.
    pub fn colored(text: &str, color: Color) -> (r: Self)
        ensures
            r.text@ == text@,
            !r.bold,
            r.color == Some(color),
            r.font_size.is_none(),
    {
        Span { text: text.to_string(), bold: false, color: Some(color), font_size: None }
    }

    /// The font size the span is drawn in, given the theme's default.
    pub fn effective_font_size(&self, default_size: u16) -> (r: u16)
        ensures
            r == match self.font_size {
                Some(s) => s,
                None => default_size,
            },
    {
        match self.font_size {
            Some(s) => s,
            None => default_size,
        }
    }
}

/// Pixels between two lines.
pub const LINE_GAP: u32 = 2;

/// Height of `n` lines of `line_h` pixels with a gap between neighbours.
pub open spec fn text_height(n: nat, line_h: nat) -> int {
    if n == 0 {
        0
    } else {
        n * line_h + LINE_GAP * (n - 1)
    }
}

/// Top edge of line `i` below a block starting at `y`.
pub open spec fn line_top(y: int, i: int, line_h: int) -> int {
    y + i * (line_h + LINE_GAP)
}

/// A block of rich text, one list of spans per line.
pub struct RichText {
    /// The lines, top to bottom.
    pub lines: Vec<Vec<Span>>,
}

/// Span widths as integers.
pub open spec fn widths_int(ws: Seq<u32>) -> Seq<int> {
    Seq::new(ws.len(), |j: int| ws[j] as int)
}

/// Widest of the first `k` lines, where `ws[i][j]` is the measured width
/// of span `j` of line `i`.
pub open spec fn widest_line(ws: Seq<Vec<u32>>, k: int) -> int
    decreases k,
{
    if k <= 0 {
        0
    } else {
        max_int(widest_line(ws, k - 1), sum_of(widths_int(ws[k - 1]@)))
    }
}

/// What span `j` of line `i` draws: its text at the end of the spans
/// before it, in its own size and color (or the defaults), and again one
/// pixel to the right when bold.
pub open spec fn span_ops(rt: RichText, theme: Theme, x: i32, y: i32, line_h: u32, ws: Seq<Vec<u32>>, i: int, j: int) -> Seq<
    DrawCmd,
> {
    let sp = rt.lines@[i]@[j];
    let lx = x + sum_of(widths_int(ws[i]@).take(j));
    let ly = line_top(y as int, i, line_h as int);
    let fs = match sp.font_size {
        Some(s) => s,
        None => theme.font_size_md,
    };
    let color = match sp.color {
        Some(c) => c,
        None => theme.text_primary,
    };
    seq![DrawCmd::Text { text: sp.text@, x: lx as i32, y: ly as i32, font_size: fs, color }] + if sp.bold {
        seq![DrawCmd::Text { text: sp.text@, x: (lx + 1) as i32, y: ly as i32, font_size: fs, color }]
    } else {
        Seq::empty()
    }
}

/// The first `k` spans of line `i`.
pub open spec fn line_spans_ops(
    rt: RichText,
    theme: Theme,
    x: i32,
    y: i32,
    line_h: u32,
    ws: Seq<Vec<u32>>,
    i: int,
    k: nat,
) -> Seq<DrawCmd>
    decreases k,
{
    if k == 0 {
        Seq::empty()
    } else {
        line_spans_ops(rt, theme, x, y, line_h, ws, i, (k - 1) as nat) + span_ops(rt, theme, x, y, line_h, ws, i, k - 1)
    }
}

/// The first `k` lines.
pub open spec fn rich_lines_ops(rt: RichText, theme: Theme, x: i32, y: i32, line_h: u32, ws: Seq<Vec<u32>>, k: nat) -> Seq<
    DrawCmd,
>
    decreases k,
{
    if k == 0 {
        Seq::empty()
    } else {
        rich_lines_ops(rt, theme, x, y, line_h, ws, (k - 1) as nat) + line_spans_ops(
            rt,
            theme,
            x,
            y,
            line_h,
            ws,
            k - 1,
            rt.lines@[k - 1]@.len(),
        )
    }
}

/// Whether the measured span widths match the spans, and drawing the text
/// at `(x, y)` stays inside `i32` arithmetic.
pub open spec fn rich_draw_fits(rt: RichText, x: i32, y: i32, line_h: u32, ws: Seq<Vec<u32>>) -> bool {
    let n = rt.lines@.len();
    &&& ws.len() == n
    &&& forall|i: int| 0 <= i < n ==> (#[trigger] ws[i]@).len() == rt.lines@[i]@.len()
    &&& forall|i: int|
        0 <= i < n ==> x + sum_of(widths_int(#[trigger] ws[i]@)) + 1 <= i32::MAX && sum_of(
            widths_int(ws[i]@),
        ) <= i32::MAX
    &&& n * (line_h + LINE_GAP) <= i32::MAX
    &&& line_top(y as int, n as int, line_h as int) <= i32::MAX
}

proof fn lemma_widths_nonneg(ws: Seq<u32>)
    ensures
        all_nonneg(widths_int(ws)),
{
}

proof fn lemma_line_step(n: int, step: int, i: int)
    requires
        0 <= i < n,
        step >= 1,
    ensures
        i * step <= n * step,
        i <= i * step,
        i * step + step <= n * step,
{
    assert(i * step <= n * step && i <= i * step && i * step + step <= n * step) by (nonlinear_arith)
        requires
            0 <= i < n,
            step >= 1,
    ;
}

proof fn lemma_widest_bounds(ws: Seq<Vec<u32>>, k: int)
    requires
        0 <= k <= ws.len(),
        forall|i: int| 0 <= i < ws.len() ==> sum_of(widths_int(#[trigger] ws[i]@)) <= u32::MAX,
    ensures
        0 <= widest_line(ws, k) <= u32::MAX,
    decreases k,
{
    if k > 0 {
        lemma_widest_bounds(ws, k - 1);
    }
}

impl RichText {
    /// Text with no lines.
    pub fn new() -> (r: Self)
        ensures
            r.lines@.len() == 0,
    {
        RichText { lines: Vec::new() }
    }

    /// Append a line made of `spans`.
    pub fn add_line(&mut self, spans: Vec<Span>)
        ensures
            final(self).lines@ == old(self).lines@.push(spans),
    {
        self.lines.push(spans);
    }

    /// Append a line holding one unstyled span.
    pub fn add_plain(&mut self, text: &str)
        ensures
            final(self).lines@.len() == old(self).lines@.len() + 1,
            final(self).lines@.drop_last() == old(self).lines@,
            final(self).lines@.last()@.len() == 1,
            final(self).lines@.last()@[0].text@ == text@,
            !final(self).lines@.last()@[0].bold,
            final(self).lines@.last()@[0].color.is_none(),
            final(self).lines@.last()@[0].font_size.is_none(),
    {
        let span = Span::plain(text);
        let mut line: Vec<Span> = Vec::new();
        line.push(span);
        self.lines.push(line);
        assert(final(self).lines@.drop_last() =~= old(self).lines@);
    }

    /// Number of lines.
    pub fn line_count(&self) -> (r: usize)
        ensures
            r == self.lines@.len(),
    {
        self.lines.len()
    }

    /// Height of the block when every line is `line_h` pixels tall.
    pub fn content_height(&self, line_h: u32) -> (h: u32)
        requires
            text_height(self.lines@.len(), line_h as nat) <= u32::MAX,
        ensures
            h == text_height(self.lines@.len(), line_h as nat),
    {
        let n = self.lines.len();
        if n == 0 {
            return 0;
        }
        let ghost total = text_height(n as nat, line_h as nat);
        assert(n * line_h >= 0) by (nonlinear_arith);
        assert(n <= u32::MAX) by (nonlinear_arith)
            requires
                n * line_h + LINE_GAP * (n - 1) <= u32::MAX,
                n >= 1,
                n * line_h >= 0,
        {
        }
        let k = n as u32;
        assert(line_h * k == n * line_h) by (nonlinear_arith)
            requires
                k == n,
        ;
        line_h * k + LINE_GAP * (k - 1)
    }

    /// Width of the widest line and height of the block, given the measured
    /// width of each span (`span_widths[i][j]` for span `j` of line `i`)
    /// and the line height.
    pub fn measure(&self, span_widths: &Vec<Vec<u32>>, line_h: u32) -> (r: (u32, u32))
        requires
            span_widths@.len() == self.lines@.len(),
            forall|i: int|
                0 <= i < span_widths@.len() ==> sum_of(widths_int(#[trigger] span_widths@[i]@)) <= u32::MAX,
            text_height(self.lines@.len(), line_h as nat) <= u32::MAX,
        ensures
            r.0 == widest_line(span_widths@, span_widths@.len() as int),
            r.1 == text_height(self.lines@.len(), line_h as nat),
    {
        let n = span_widths.len();
        let mut max_w: u32 = 0;
        let mut i: usize = 0;
        while i < n
            invariant
                n == span_widths@.len(),
                i <= n,
                forall|k: int|
                    0 <= k < span_widths@.len() ==> sum_of(widths_int(#[trigger] span_widths@[k]@)) <= u32::MAX,
                max_w == widest_line(span_widths@, i as int),
            decreases n - i,
        {
            let line = &span_widths[i];
            let ghost wi = widths_int(line@);
            proof {
                lemma_widths_nonneg(line@);
                lemma_sum_take_all(wi);
            }
            let mut w: u32 = 0;
            let mut j: usize = 0;
            while j < line.len()
                invariant
                    j <= line@.len(),
                    wi == widths_int(line@),
                    all_nonneg(wi),
                    sum_of(wi.take(wi.len() as int)) == sum_of(wi),
                    sum_of(wi) <= u32::MAX,
                    w == sum_of(wi.take(j as int)),
                decreases line@.len() - j,
            {
                proof {
                    lemma_sum_take_step(wi, j as int);
                    lemma_sum_prefix_bounds(wi, j as int + 1);
                }
                w = w + line[j];
                j = j + 1;
            }
            if w > max_w {
                max_w = w;
            }
            i = i + 1;
        }
        (max_w, self.content_height(line_h))
    }

    /// What drawing the block at `(x, y)` asks the renderer to draw, given
    /// the line height and the measured width of each span
    /// (`span_widths[i][j]` for span `j` of line `i`).
    #[verifier::rlimit(50)]
    pub fn draw(&self, theme: &Theme, x: i32, y: i32, line_h: u32, span_widths: &Vec<Vec<u32>>) -> (r: Vec<
        DrawOp,
    >)
        requires
            rich_draw_fits(*self, x, y, line_h, span_widths@),
        ensures
            cmds(r@) == rich_lines_ops(*self, *theme, x, y, line_h, span_widths@, self.lines@.len()),
    {
        let n = self.lines.len();
        let mut out: Vec<DrawOp> = Vec::new();
        let mut i: usize = 0;
        while i < n
            invariant
                n == self.lines@.len(),
                i <= n,
                rich_draw_fits(*self, x, y, line_h, span_widths@),
                cmds(out@) == rich_lines_ops(*self, *theme, x, y, line_h, span_widths@, i as nat),
            decreases n - i,
        {
            proof {
                lemma_line_step(n as int, line_h + LINE_GAP, i as int);
            }
            let ly = self.line_y(y, i, line_h);
            let line = &self.lines[i];
            let ws = &span_widths[i];
            let ghost wi = widths_int(ws@);
            proof {
                lemma_widths_nonneg(ws@);
                lemma_sum_take_all(wi);
            }
            let ghost before = cmds(out@);
            let mut lx: i32 = x;
            let mut j: usize = 0;
            while j < line.len()
                invariant
                    n == self.lines@.len(),
                    i < n,
                    line@ == self.lines@[i as int]@,
                    ws@ == span_widths@[i as int]@,
                    ws@.len() == line@.len(),
                    j <= line@.len(),
                    wi == widths_int(ws@),
                    all_nonneg(wi),
                    sum_of(wi.take(wi.len() as int)) == sum_of(wi),
                    x + sum_of(wi) + 1 <= i32::MAX,
                    sum_of(wi) <= i32::MAX,
                    ly == line_top(y as int, i as int, line_h as int),
                    lx == x + sum_of(wi.take(j as int)),
                    cmds(out@) == before + line_spans_ops(*self, *theme, x, y, line_h, span_widths@, i as int, j as nat),
                decreases line@.len() - j,
            {
                proof {
                    lemma_sum_take_step(wi, j as int);
                    lemma_sum_prefix_bounds(wi, j as int + 1);
                    lemma_sum_prefix_bounds(wi, j as int);
                }
                let sp = &line[j];
                let fs = sp.effective_font_size(theme.font_size_md);
                let color = match sp.color {
                    Some(c) => c,
                    None => theme.text_primary,
                };
                let mut ops: Vec<DrawOp> = Vec::new();
                ops.push(DrawOp::Text { text: sp.text.clone(), x: lx, y: ly, font_size: fs, color });
                if sp.bold {
                    ops.push(DrawOp::Text { text: sp.text.clone(), x: lx + 1, y: ly, font_size: fs, color });
                }
                assert(cmds(ops@) =~= span_ops(*self, *theme, x, y, line_h, span_widths@, i as int, j as int));
                proof {
                    lemma_cmds_add(out@, ops@);
                }
                out.append(&mut ops);
                lx = lx + ws[j] as i32;
                j = j + 1;
            }
            i = i + 1;
        }
        out
    }

    /// Top edge of line `i` when the block starts at `y`.
    pub fn line_y(&self, y: i32, i: usize, line_h: u32) -> (r: i32)
        requires
            i * (line_h + LINE_GAP) <= i32::MAX,
            line_top(y as int, i as int, line_h as int) <= i32::MAX,
        ensures
            r == line_top(y as int, i as int, line_h as int),
    {
        assert(i <= i * (line_h + LINE_GAP)) by (nonlinear_arith)
            requires
                line_h + LINE_GAP >= 1,
        {
        }
        let step: i64 = line_h as i64 + LINE_GAP as i64;
        let k: i64 = i as i64;
        assert(k * step == i * (line_h + LINE_GAP));
        let off: i64 = k * step;
        (y as i64 + off) as i32
    }
}

impl Default for RichText {
    fn default() -> (r: Self)
        ensures
            r.lines@.len() == 0,
    {
        RichText::new()
    }
}

/// A block of text with optional wrapping and alignment.
pub struct TextBlock {
    /// The text.
    pub text: String,
    /// Font size; 0 takes the theme's medium size.
    pub font_size: u16,
    /// Text color; `None` takes the theme's primary text color.
    pub color: Option<Color>,
    /// Lines shown at most.
    pub max_lines: Option<u32>,
    /// Horizontal alignment.
    pub align: HAlign,
    /// Line height in pixels; 0 takes the font's height.
    pub line_height: u32,
}

/// The larger of two integers.
pub open spec fn max_int(a: int, b: int) -> int {
    if a >= b {
        a
    } else {
        b
    }
}

/// Greedy wrapping of one paragraph after its first `k` words (`k >= 1`),
/// where `ws[i]` is the width of word `i` and a joined line is as wide as
/// its words plus one space between neighbours: the lines already
/// finished, the widest of them, and the width of the line being filled.
/// A word that does not fit on a non-empty line starts the next one.
pub open spec fn wrap_state(ws: Seq<u32>, space: int, avail: int, k: int) -> (int, int, int)
    decreases k,
{
    if k <= 1 {
        (0, 0, ws[0] as int)
    } else {
        let prev = wrap_state(ws, space, avail, k - 1);
        let t = prev.2 + space + ws[k - 1];
        if t > avail {
            (prev.0 + 1, max_int(prev.1, prev.2), ws[k - 1] as int)
        } else {
            (prev.0, prev.1, t)
        }
    }
}

/// Lines and widest line of one wrapped paragraph: an empty paragraph is
/// one empty line.
pub open spec fn paragraph_wrap(ws: Seq<u32>, space: int, avail: int) -> (int, int) {
    if ws.len() == 0 {
        (1, 0)
    } else {
        let st = wrap_state(ws, space, avail, ws.len() as int);
        (st.0 + 1, max_int(st.1, st.2))
    }
}

/// Lines and widest line of the first `k` paragraphs.
pub open spec fn text_wrap(ps: Seq<Vec<u32>>, space: int, avail: int, k: int) -> (int, int)
    decreases k,
{
    if k <= 0 {
        (0, 0)
    } else {
        let prev = text_wrap(ps, space, avail, k - 1);
        let p = paragraph_wrap(ps[k - 1]@, space, avail);
        (prev.0 + p.0, max_int(prev.1, p.1))
    }
}

proof fn lemma_wrap_state_bounds(ws: Seq<u32>, space: int, avail: int, k: int)
    requires
        1 <= k <= ws.len(),
        0 <= avail <= u32::MAX,
        0 <= space,
    ensures
        0 <= wrap_state(ws, space, avail, k).0 < k,
        0 <= wrap_state(ws, space, avail, k).1 <= u32::MAX,
        0 <= wrap_state(ws, space, avail, k).2 <= u32::MAX,
    decreases k,
{
    if k > 1 {
        lemma_wrap_state_bounds(ws, space, avail, k - 1);
    }
}

proof fn lemma_wrap_state_mono(ws: Seq<u32>, space: int, avail: int, j: int, k: int)
    requires
        1 <= j <= k,
    ensures
        wrap_state(ws, space, avail, j).0 <= wrap_state(ws, space, avail, k).0,
    decreases k,
{
    if j < k {
        lemma_wrap_state_mono(ws, space, avail, j, k - 1);
    }
}

proof fn lemma_text_wrap_mono(ps: Seq<Vec<u32>>, space: int, avail: int, j: int, k: int)
    requires
        0 <= j <= k,
        0 <= avail <= u32::MAX,
        0 <= space,
        k <= ps.len(),
    ensures
        0 <= text_wrap(ps, space, avail, j).0 <= text_wrap(ps, space, avail, k).0,
        0 <= text_wrap(ps, space, avail, k).1 <= u32::MAX,
    decreases k,
{
    if k > 0 {
        lemma_text_wrap_mono(ps, space, avail, if j < k {
            j
        } else {
            k - 1
        }, k - 1);
        let ws = ps[k - 1]@;
        if ws.len() > 0 {
            lemma_wrap_state_bounds(ws, space, avail, ws.len() as int);
        }
    }
}

/// Reading a text left to right: its lines (split at `\n`), each as the
/// list of its words (the runs of non-white-space characters), and whether
/// the last character read is inside a word.
pub open spec fn split_state(s: Seq<char>) -> (Seq<Seq<Seq<char>>>, bool)
    decreases s.len(),
{
    if s.len() == 0 {
        (seq![Seq::<Seq<char>>::empty()], false)
    } else {
        let prev = split_state(s.drop_last());
        let ps = prev.0;
        let c = s.last();
        if c == '\n' {
            (ps.push(Seq::empty()), false)
        } else if white_space(c) {
            (ps, false)
        } else if prev.1 {
            let p = ps.last();
            (ps.update(ps.len() - 1, p.update(p.len() - 1, p.last().push(c))), true)
        } else {
            (ps.update(ps.len() - 1, ps.last().push(seq![c])), true)
        }
    }
}

/// The words of each line of a text.
pub open spec fn paragraph_words_spec(s: Seq<char>) -> Seq<Seq<Seq<char>>> {
    split_state(s).0
}

/// Number of line breaks in a text.
pub open spec fn newline_count(s: Seq<char>) -> nat
    decreases s.len(),
{
    if s.len() == 0 {
        0
    } else {
        newline_count(s.drop_last()) + if s.last() == '\n' {
            1nat
        } else {
            0nat
        }
    }
}

/// Nested text lists as values.
pub open spec fn words_view(v: Seq<Vec<String>>) -> Seq<Seq<Seq<char>>> {
    v.map_values(|p: Vec<String>| p@.map_values(|w: String| w@))
}

/// A text has one line more than it has line breaks; while inside a word,
/// its last line ends with a non-empty word.
pub proof fn lemma_split_lines(s: Seq<char>)
    ensures
        split_state(s).0.len() == newline_count(s) + 1,
        split_state(s).1 ==> split_state(s).0.last().len() > 0 && split_state(s).0.last().last().len() > 0,
    decreases s.len(),
{
    if s.len() > 0 {
        lemma_split_lines(s.drop_last());
    }
}

/// Every line takes at least one line of the wrapped text.
proof fn lemma_text_wrap_lines(ps: Seq<Vec<u32>>, space: int, avail: int, k: int)
    requires
        0 <= k <= ps.len(),
    ensures
        text_wrap(ps, space, avail, k).0 >= k,
    decreases k,
{
    if k > 0 {
        lemma_text_wrap_lines(ps, space, avail, k - 1);
        let ws = ps[k - 1]@;
        if ws.len() > 0 {
            lemma_wrap_state_nonneg(ws, space, avail, ws.len() as int);
        }
    }
}

proof fn lemma_wrap_state_nonneg(ws: Seq<u32>, space: int, avail: int, k: int)
    ensures
        wrap_state(ws, space, avail, k).0 >= 0,
    decreases k,
{
    if k > 1 {
        lemma_wrap_state_nonneg(ws, space, avail, k - 1);
    }
}

impl TextBlock {
    /// Left-aligned text in the theme's font, no line limit.
    pub fn new(text: &str) -> (r: Self)
        ensures
            r.text@ == text@,
            r.font_size == 0,
            r.color.is_none(),
            r.max_lines.is_none(),
            r.align == HAlign::Left,
            r.line_height == 0,
    {
        TextBlock {
            text: text.to_string(),
            font_size: 0,
            color: None,
            max_lines: None,
            align: HAlign::Left,
            line_height: 0,
        }
    }

    /// The font size used, given the theme's medium size.
    pub fn effective_font_size(&self, theme_size: u16) -> (r: u16)
        ensures
            r == if self.font_size > 0 {
                self.font_size
            } else {
                theme_size
            },
    {
        if self.font_size > 0 {
            self.font_size
        } else {
            theme_size
        }
    }

    /// What drawing the block at `(x, y)` with width `w` asks the renderer
    /// to draw: its text wrapped to the width, in its font size and color
    /// (or the theme's), with its line height (or the font's, `font_h`).
    pub fn draw(&self, theme: &Theme, x: i32, y: i32, w: u32, font_h: u32) -> (r: Vec<DrawOp>)
        ensures
            cmds(r@) == seq![
                DrawCmd::TextWrapped {
                    text: self.text@,
                    x,
                    y,
                    font_size: if self.font_size > 0 {
                        self.font_size
                    } else {
                        theme.font_size_md
                    },
                    color: match self.color {
                        Some(c) => c,
                        None => theme.text_primary,
                    },
                    max_w: w,
                    line_h: if self.line_height > 0 {
                        self.line_height
                    } else {
                        font_h
                    },
                },
            ],
    {
        let color = match self.color {
            Some(c) => c,
            None => theme.text_primary,
        };
        let lh = if self.line_height > 0 {
            self.line_height
        } else {
            font_h
        };
        let mut out: Vec<DrawOp> = Vec::new();
        out.push(
            DrawOp::TextWrapped {
                text: self.text.clone(),
                x,
                y,
                font_size: self.effective_font_size(theme.font_size_md),
                color,
                max_w: w,
                line_h: lh,
            },
        );
        assert(cmds(out@) =~= seq![out@[0]@]);
        out
    }

    /// The words of each line of the text: the text split at `\n`, each
    /// line split into its runs of non-white-space characters. These are the
    /// words whose widths [`TextBlock::measure`] takes.
    pub fn paragraph_words(&self) -> (r: Vec<Vec<String>>)
        ensures
            words_view(r@) =~~= paragraph_words_spec(self.text@),
    {
        let s = self.text.as_str();
        let n = s.unicode_len();
        let ghost t = self.text@;
        let mut paras: Vec<Vec<String>> = Vec::new();
        let mut cur: Vec<String> = Vec::new();
        let mut word = String::new();
        let mut inw = false;
        let mut i: usize = 0;
        while i < n
            invariant
                n == t.len(),
                s@ == t,
                i <= n,
                inw == split_state(t.take(i as int)).1,
                inw ==> word@.len() > 0,
                words_view(paras@).push(
                    cur@.map_values(|w: String| w@) + if inw {
                        seq![word@]
                    } else {
                        Seq::empty()
                    },
                ) =~~= split_state(t.take(i as int)).0,
            decreases n - i,
        {
            let c = s.get_char(i);
            let ghost pre = t.take(i as int);
            assert(t.take(i as int + 1).drop_last() =~= pre);
            assert(t.take(i as int + 1).last() == c);
            let ghost ps = split_state(pre).0;
            if c == '\n' {
                if inw {
                    cur.push(word);
                }
                paras.push(cur);
                cur = Vec::new();
                word = String::new();
                inw = false;
                assert(words_view(paras@) =~~= ps);
                assert(cur@.map_values(|w: String| w@) =~= Seq::<Seq<char>>::empty());
            } else if is_whitespace(c) {
                if inw {
                    cur.push(word);
                    word = String::new();
                }
                inw = false;
                assert(cur@.map_values(|w: String| w@) =~~= ps.last());
            } else if inw {
                push_char(&mut word, c);
                assert(cur@.map_values(|w: String| w@) + seq![word@] =~~= ps.last().update(
                    ps.last().len() - 1,
                    ps.last().last().push(c),
                ));
            } else {
                word = String::new();
                push_char(&mut word, c);
                inw = true;
                assert(cur@.map_values(|w: String| w@) + seq![word@] =~~= ps.last().push(seq![c]));
            }
            i = i + 1;
        }
        if inw {
            cur.push(word);
        }
        paras.push(cur);
        assert(t.take(n as int) =~= t);
        paras
    }

    /// Width of the widest line and height of the text wrapped greedily to
    /// `available_w`, given for each paragraph (the text split at line
    /// breaks) the measured width of each of its words, the width of a space
    /// and the font's height; the lines are cut to the line limit.
    pub fn measure(&self, word_widths: &Vec<Vec<u32>>, space_w: u32, available_w: u32, font_h: u32) -> (r: (
        u32,
        u32,
    ))
        requires
            word_widths@.len() == paragraph_words_spec(self.text@).len(),
            forall|i: int|
                0 <= i < word_widths@.len() ==> (#[trigger] word_widths@[i])@.len() == paragraph_words_spec(
                    self.text@,
                )[i].len(),
            text_wrap(word_widths@, space_w as int, available_w as int, word_widths@.len() as int).0
                <= u32::MAX,
            (match self.max_lines {
                Some(m) => if text_wrap(
                    word_widths@,
                    space_w as int,
                    available_w as int,
                    word_widths@.len() as int,
                ).0 < m {
                    text_wrap(word_widths@, space_w as int, available_w as int, word_widths@.len() as int).0
                } else {
                    m as int
                },
                None => text_wrap(word_widths@, space_w as int, available_w as int, word_widths@.len() as int).0,
            }) * (if self.line_height > 0 {
                self.line_height
            } else {
                font_h
            }) <= u32::MAX,
        ensures
            self.max_lines is None ==> r.1 >= (newline_count(self.text@) + 1) * (if self.line_height > 0 {
                self.line_height
            } else {
                font_h
            }),
            r.0 == text_wrap(word_widths@, space_w as int, available_w as int, word_widths@.len() as int).1,
            r.1 == (match self.max_lines {
                Some(m) => if text_wrap(
                    word_widths@,
                    space_w as int,
                    available_w as int,
                    word_widths@.len() as int,
                ).0 < m {
                    text_wrap(word_widths@, space_w as int, available_w as int, word_widths@.len() as int).0
                } else {
                    m as int
                },
                None => text_wrap(word_widths@, space_w as int, available_w as int, word_widths@.len() as int).0,
            }) * (if self.line_height > 0 {
                self.line_height
            } else {
                font_h
            }),
    {
        proof {
            lemma_split_lines(self.text@);
            lemma_text_wrap_lines(word_widths@, space_w as int, available_w as int, word_widths@.len() as int);
            let lh: int = if self.line_height > 0 {
                self.line_height as int
            } else {
                font_h as int
            };
            let k = text_wrap(word_widths@, space_w as int, available_w as int, word_widths@.len() as int).0;
            assert(k * lh >= (newline_count(self.text@) + 1) * lh) by (nonlinear_arith)
                requires
                    k >= newline_count(self.text@) + 1,
                    lh >= 0,
            ;
        }
        let ghost ps = word_widths@;
        let ghost space = space_w as int;
        let ghost avail = available_w as int;
        let np = word_widths.len();
        let ghost total = text_wrap(ps, space, avail, np as int).0;
        let mut lines: u32 = 0;
        let mut max_w: u32 = 0;
        let mut i: usize = 0;
        while i < np
            invariant
                ps == word_widths@,
                np == ps.len(),
                i <= np,
                space == space_w as int,
                avail == available_w as int,
                total == text_wrap(ps, space, avail, np as int).0,
                total <= u32::MAX,
                lines == text_wrap(ps, space, avail, i as int).0,
                max_w == text_wrap(ps, space, avail, i as int).1,
            decreases np - i,
        {
            proof {
                lemma_text_wrap_mono(ps, space, avail, i as int + 1, np as int);
            }
            let ws = &word_widths[i];
            let nw = ws.len();
            if nw == 0 {
                lines = lines + 1;
            } else {
                let mut done: u32 = 0;
                let mut widest: u32 = 0;
                let mut cur: u64 = ws[0] as u64;
                let mut k: usize = 1;
                while k < nw
                    invariant
                        ws@ == ps[i as int]@,
                        nw == ws@.len(),
                        1 <= k <= nw,
                        space == space_w as int,
                        avail == available_w as int,
                        (done as int, widest as int, cur as int) == wrap_state(ws@, space, avail, k as int),
                        lines + wrap_state(ws@, space, avail, nw as int).0 + 1 <= u32::MAX,
                    decreases nw - k,
                {
                    proof {
                        lemma_wrap_state_bounds(ws@, space, avail, k as int);
                        lemma_wrap_state_mono(ws@, space, avail, k as int + 1, nw as int);
                    }
                    let t: u64 = cur + space_w as u64 + ws[k] as u64;
                    if t > available_w as u64 {
                        if cur > widest as u64 {
                            widest = cur as u32;
                        }
                        done = done + 1;
                        cur = ws[k] as u64;
                    } else {
                        cur = t;
                    }
                    k = k + 1;
                }
                proof {
                    lemma_wrap_state_bounds(ws@, space, avail, nw as int);
                }
                lines = lines + done + 1;
                let w: u32 = if cur > widest as u64 {
                    cur as u32
                } else {
                    widest
                };
                if w > max_w {
                    max_w = w;
                }
            }
            i = i + 1;
        }
        (max_w, self.height_for(lines, font_h))
    }

    /// Height of `lines` wrapped lines whose font is `font_h` pixels tall,
    /// cut to the line limit.
    pub fn height_for(&self, lines: u32, font_h: u32) -> (r: u32)
        requires
            (match self.max_lines {
                Some(m) => if lines < m {
                    lines
                } else {
                    m
                },
                None => lines,
            }) * (if self.line_height > 0 {
                self.line_height
            } else {
                font_h
            }) <= u32::MAX,
        ensures
            r == (match self.max_lines {
                Some(m) => if lines < m {
                    lines
                } else {
                    m
                },
                None => lines,
            }) * (if self.line_height > 0 {
                self.line_height
            } else {
                font_h
            }),
    {
        let lh = if self.line_height > 0 {
            self.line_height
        } else {
            font_h
        };
        let n = match self.max_lines {
            Some(m) => if lines < m {
                lines
            } else {
                m
            },
            None => lines,
        };
        n * lh
    }
}

} // verus!
