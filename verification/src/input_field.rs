//! Text input field: the text, the cursor and editing.
use crate::draw::{cmds, DrawCmd, DrawOp};
use crate::layout::{center, center_in_range, center_spec};
use crate::text::push_char;
use crate::theme::Theme;
use vstd::prelude::*;
use vstd::string::StrSliceExecFns;

verus! {

/// A text input with a cursor and an optional placeholder.
pub struct InputField {
    /// Current text content.
    pub text: String,
    /// Placeholder text shown when empty.
    pub placeholder: String,
    /// Cursor position as a character index.
    pub cursor_pos: usize,
    /// Optional text selection range (start, end).
    pub selection: Option<(usize, usize)>,
    /// Whether the field has focus.
    pub focused: bool,
    /// If true, the text is displayed as asterisks.
    pub password_mode: bool,
}

/// `s` with `c` inserted before character `p` (appended when `p` is past the end).
pub open spec fn insert_spec(s: Seq<char>, p: int, c: char) -> Seq<char> {
    let q = if p < s.len() {
        p
    } else {
        s.len() as int
    };
    s.take(q).push(c) + s.skip(q)
}

/// `s` without character `p` (unchanged when `p` is past the end).
pub open spec fn remove_spec(s: Seq<char>, p: int) -> Seq<char> {
    if p < s.len() {
        s.take(p) + s.skip(p + 1)
    } else {
        s
    }
}

/// The text as drawn: one asterisk per byte of the text in password mode,
/// the text itself otherwise.
pub open spec fn display_spec(f: InputField) -> Seq<char> {
    if f.password_mode {
        Seq::new((vstd::utf8::encode_utf8(f.text@).len() as usize) as nat, |i: int| '*')
    } else {
        f.text@
    }
}

/// The part of the drawn text before the cursor.
pub open spec fn display_prefix_spec(f: InputField) -> Seq<char> {
    let d = display_spec(f);
    d.take(
        if f.cursor_pos < d.len() {
            f.cursor_pos as int
        } else {
            d.len() as int
        },
    )
}

/// What an input field draws in `(x, y, w, h)`, given the text height and
/// the measured width of the drawn text before the cursor: its background
/// and border (highlighted when focused), then the placeholder when empty,
/// or the text and, when focused, the one-pixel cursor after the prefix.
pub open spec fn input_field_ops(
    f: InputField,
    theme: Theme,
    x: i32,
    y: i32,
    w: u32,
    h: u32,
    text_h: u32,
    prefix_w: u32,
) -> Seq<DrawCmd> {
    let r = theme.border_radius_md;
    let ty = y + center_spec(h, text_h);
    let max_w = if w >= 8 {
        (w - 8) as u32
    } else {
        0u32
    };
    seq![
        DrawCmd::FillRoundedRect { x, y, w, h, radius: r, color: theme.input_bg },
        DrawCmd::StrokeRoundedRect {
            x,
            y,
            w,
            h,
            radius: r,
            width: 1,
            color: if f.focused {
                theme.input_border_focus
            } else {
                theme.input_border
            },
        },
    ] + if f.text@.len() == 0 {
        seq![
            DrawCmd::TextEllipsis {
                text: f.placeholder@,
                x: (x + 4) as i32,
                y: ty as i32,
                font_size: theme.font_size_md,
                color: theme.text_disabled,
                max_w,
            },
        ]
    } else {
        seq![
            DrawCmd::TextEllipsis {
                text: display_spec(f),
                x: (x + 4) as i32,
                y: ty as i32,
                font_size: theme.font_size_md,
                color: theme.text_primary,
                max_w,
            },
        ] + if f.focused {
            seq![
                DrawCmd::FillRect {
                    x: (x + 4 + prefix_w) as i32,
                    y: ty as i32,
                    w: 1,
                    h: text_h,
                    color: theme.text_primary,
                },
            ]
        } else {
            Seq::empty()
        }
    }
}

impl InputField {
    /// Create an empty, unfocused field.
    pub fn new() -> (r: Self)
        ensures
            r.text@ == Seq::<char>::empty(),
            r.placeholder@ == Seq::<char>::empty(),
            r.cursor_pos == 0,
            r.selection.is_none(),
            !r.focused,
            !r.password_mode,
    {
        InputField {
            text: String::new(),
            placeholder: String::new(),
            cursor_pos: 0,
            selection: None,
            focused: false,
            password_mode: false,
        }
    }

    /// The text as drawn: one asterisk per byte of the text in password
    /// mode, the text itself otherwise.
    pub fn display_text(&self) -> (r: String)
        ensures
            r@ == display_spec(*self),
    {
        if self.password_mode {
            let n = self.text.as_str().len();
            let mut s = String::new();
            let mut i: usize = 0;
            while i < n
                invariant
                    0 <= i <= n,
                    n == vstd::utf8::encode_utf8(self.text@).len() as usize,
                    s@ == Seq::new(i as nat, |k: int| '*'),
                decreases n - i,
            {
                push_char(&mut s, '*');
                i = i + 1;
                assert(s@ =~= Seq::new(i as nat, |k: int| '*'));
            }
            s
        } else {
            self.text.clone()
        }
    }

    /// The drawn text before the cursor, whose width places the cursor.
    pub fn display_prefix(&self) -> (r: String)
        ensures
            r@ == display_prefix_spec(*self),
    {
        let d = self.display_text();
        let n = d.as_str().unicode_len();
        let k = if self.cursor_pos < n {
            self.cursor_pos
        } else {
            n
        };
        let r = String::from_str(d.as_str().substring_char(0, k));
        assert(r@ =~= display_prefix_spec(*self));
        r
    }

    /// What drawing the field in `(x, y, w, h)` asks the renderer to draw,
    /// given the text height and the measured width of
    /// [`InputField::display_prefix`].
    pub fn draw(&self, theme: &Theme, x: i32, y: i32, w: u32, h: u32, text_h: u32, prefix_w: u32) -> (r:
        Vec<DrawOp>)
        requires
            center_in_range(h, text_h),
            i32::MIN <= y + center_spec(h, text_h) <= i32::MAX,
            prefix_w <= i32::MAX,
            x + 4 + prefix_w <= i32::MAX,
        ensures
            cmds(r@) == input_field_ops(*self, *theme, x, y, w, h, text_h, prefix_w),
    {
        let radius = theme.border_radius_md;
        let mut out: Vec<DrawOp> = Vec::new();
        out.push(DrawOp::FillRoundedRect { x, y, w, h, radius, color: theme.input_bg });
        let bc = if self.focused {
            theme.input_border_focus
        } else {
            theme.input_border
        };
        out.push(DrawOp::StrokeRoundedRect { x, y, w, h, radius, width: 1, color: bc });
        let fs = theme.font_size_md;
        let ty = y + center(h, text_h);
        let tx = x + 4;
        let max_w = if w >= 8 {
            w - 8
        } else {
            0
        };
        if self.text.as_str().unicode_len() == 0 {
            out.push(
                DrawOp::TextEllipsis {
                    text: self.placeholder.clone(),
                    x: tx,
                    y: ty,
                    font_size: fs,
                    color: theme.text_disabled,
                    max_w,
                },
            );
        } else {
            out.push(
                DrawOp::TextEllipsis {
                    text: self.display_text(),
                    x: tx,
                    y: ty,
                    font_size: fs,
                    color: theme.text_primary,
                    max_w,
                },
            );
            if self.focused {
                out.push(
                    DrawOp::FillRect { x: tx + prefix_w as i32, y: ty, w: 1, h: text_h, color: theme.text_primary },
                );
            }
        }
        assert(cmds(out@) =~= input_field_ops(*self, *theme, x, y, w, h, text_h, prefix_w));
        out
    }

    /// Insert a character at the cursor and move the cursor past it.
    pub fn insert(&mut self, ch: char)
        requires
            old(self).cursor_pos < usize::MAX,
        ensures
            final(self).text@ == insert_spec(old(self).text@, old(self).cursor_pos as int, ch),
            final(self).cursor_pos == old(self).cursor_pos + 1,
            final(self).placeholder == old(self).placeholder,
            final(self).selection == old(self).selection,
            final(self).focused == old(self).focused,
            final(self).password_mode == old(self).password_mode,
    {
        let len = self.text.as_str().unicode_len();
        let p = if self.cursor_pos < len {
            self.cursor_pos
        } else {
            len
        };
        let mut s = String::from_str(self.text.as_str().substring_char(0, p));
        push_char(&mut s, ch);
        s.append(self.text.as_str().substring_char(p, len));
        proof {
            assert(self.text@.subrange(0, p as int) =~= self.text@.take(p as int));
            assert(self.text@.subrange(p as int, len as int) =~= self.text@.skip(p as int));
        }
        self.text = s;
        self.cursor_pos = self.cursor_pos + 1;
    }

    /// Delete the character before the cursor and move the cursor back.
    pub fn backspace(&mut self)
        ensures
            old(self).cursor_pos == 0 ==> final(self).text@ == old(self).text@
                && final(self).cursor_pos == 0,
            old(self).cursor_pos > 0 ==> final(self).text@ == remove_spec(
                old(self).text@,
                old(self).cursor_pos - 1,
            ) && final(self).cursor_pos == old(self).cursor_pos - 1,
            final(self).placeholder == old(self).placeholder,
            final(self).selection == old(self).selection,
            final(self).focused == old(self).focused,
            final(self).password_mode == old(self).password_mode,
    {
        if self.cursor_pos > 0 {
            self.cursor_pos = self.cursor_pos - 1;
            let len = self.text.as_str().unicode_len();
            let p = self.cursor_pos;
            if p < len {
                let mut s = String::from_str(self.text.as_str().substring_char(0, p));
                s.append(self.text.as_str().substring_char(p + 1, len));
                proof {
                    assert(self.text@.subrange(0, p as int) =~= self.text@.take(p as int));
                    assert(self.text@.subrange(p + 1, len as int) =~= self.text@.skip(p + 1));
                }
                self.text = s;
            }
        }
    }
}

impl Default for InputField {
    fn default() -> (r: Self)
        ensures
            r.text@ == Seq::<char>::empty(),
            r.placeholder@ == Seq::<char>::empty(),
            r.cursor_pos == 0,
            r.selection.is_none(),
            !r.focused,
            !r.password_mode,
    {
        InputField::new()
    }
}

/// Inserting a character and deleting it again restores the text, wherever
/// the cursor stands.
pub proof fn lemma_insert_then_backspace(s: Seq<char>, p: int, c: char)
    requires
        0 <= p,
    ensures
        remove_spec(insert_spec(s, p, c), if p < s.len() { p } else { s.len() as int }) == s,
{
    let q = if p < s.len() {
        p
    } else {
        s.len() as int
    };
    let t = insert_spec(s, p, c);
    assert(t.take(q) =~= s.take(q));
    assert(t.skip(q + 1) =~= s.skip(q));
    assert(s.take(q) + s.skip(q) =~= s);
}

/// Backspace undoes an insert: from a field whose cursor is within its
/// text, the state `insert` leaves and then the state `backspace` leaves
/// (as their contracts describe them) have the starting text and cursor.
pub proof fn lemma_backspace_undoes_insert(
    before: InputField,
    mid: InputField,
    after: InputField,
    c: char,
)
    requires
        before.cursor_pos <= before.text@.len(),
        mid.text@ == insert_spec(before.text@, before.cursor_pos as int, c),
        mid.cursor_pos == before.cursor_pos + 1,
        after.text@ == remove_spec(mid.text@, mid.cursor_pos - 1),
        after.cursor_pos == mid.cursor_pos - 1,
    ensures
        after.text@ == before.text@,
        after.cursor_pos == before.cursor_pos,
{
    lemma_insert_then_backspace(before.text@, before.cursor_pos as int, c);
}

} // verus!
