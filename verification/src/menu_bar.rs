//! Top menu bar with drop-down menus: layout, hit testing and hover.
//!
//! Apps populate a [`MenuBar`] with a list of [`Menu`]s and dispatch pointer
//! input through [`MenuBar::hit_test`]. When an item is clicked the bar
//! returns the `id` string set on that entry, which the host maps to an
//! action.
use crate::cyclic::{lemma_least_in_is, lemma_least_in_none, lemma_least_in_some, least_in};
use crate::draw::{cmds, lemma_cmds_add, DrawCmd, DrawOp};
use crate::layout::{as_i32, trunc_div};
use crate::sums::{all_nonneg, lemma_sum_prefix_bounds, lemma_sum_take_step, sum_of};
use crate::color::Color;
use vstd::prelude::*;
use vstd::string::StrSliceExecFns;

verus! {

/// One entry of a drop-down menu.
#[derive(Debug, Clone)]
pub enum MenuEntry {
    /// A clickable item.
    Action {
        /// Text shown.
        label: String,
        /// Identifier returned when clicked.
        id: String,
        /// Optional shortcut hint shown on the right.
        shortcut: Option<String>,
        /// Whether the item can be clicked.
        enabled: bool,
    },
    /// A horizontal divider.
    Separator,
}

impl MenuEntry {
    /// An enabled action without a shortcut.
    pub fn action(label: &str, id: &str) -> (r: Self)
        ensures
            r matches MenuEntry::Action { label: l, id: i, shortcut, enabled } && l@ == label@ && i@
                == id@ && shortcut.is_none() && enabled,
    {
        MenuEntry::Action {
            label: label.to_string(),
            id: id.to_string(),
            shortcut: None,
            enabled: true,
        }
    }

    /// Attach a shortcut hint to an action (separators are unchanged).
    pub fn with_shortcut(self, shortcut: &str) -> (r: Self)
        ensures
            match self {
                MenuEntry::Action { label, id, enabled, .. } => r matches MenuEntry::Action {
                    label: l,
                    id: i,
                    shortcut: Some(s),
                    enabled: e,
                } && l == label && i == id && s@ == shortcut@ && e == enabled,
                MenuEntry::Separator => r is Separator,
            },
    {
        match self {
            MenuEntry::Action { label, id, enabled, .. } => MenuEntry::Action {
                label,
                id,
                shortcut: Some(shortcut.to_string()),
                enabled,
            },
            MenuEntry::Separator => MenuEntry::Separator,
        }
    }

    /// Disable an action (separators are unchanged).
    pub fn disabled(self) -> (r: Self)
        ensures
            match self {
                MenuEntry::Action { label, id, shortcut, .. } => r == (MenuEntry::Action {
                    label,
                    id,
                    shortcut,
                    enabled: false,
                }),
                MenuEntry::Separator => r is Separator,
            },
    {
        match self {
            MenuEntry::Action { label, id, shortcut, .. } => MenuEntry::Action {
                label,
                id,
                shortcut,
                enabled: false,
            },
            MenuEntry::Separator => MenuEntry::Separator,
        }
    }

    /// The identifier of an enabled action; `None` for disabled actions and
    /// separators.
    pub fn action_id(&self) -> (r: Option<&str>)
        ensures
            match *self {
                MenuEntry::Action { id, enabled, .. } => if enabled {
                    r matches Some(s) && s@ == id@
                } else {
                    r is None
                },
                MenuEntry::Separator => r is None,
            },
    {
        match self {
            MenuEntry::Action { id, enabled, .. } => if *enabled {
                Some(id.as_str())
            } else {
                None
            },
            MenuEntry::Separator => None,
        }
    }
}

/// A titled drop-down menu.
#[derive(Debug, Clone)]
pub struct Menu {
    /// Title shown on the bar.
    pub label: String,
    /// Entries of the drop-down.
    pub entries: Vec<MenuEntry>,
}

impl Menu {
    /// Create a menu.
    pub fn new(label: &str, entries: Vec<MenuEntry>) -> (r: Self)
        ensures
            r.label@ == label@,
            r.entries@ == entries@,
    {
        Menu { label: label.to_string(), entries }
    }
}

/// A bar of menu titles, at most one of them open.
#[derive(Debug, Clone)]
pub struct MenuBar {
    /// The menus, left to right.
    pub menus: Vec<Menu>,
    /// Index of the open menu.
    pub open: Option<usize>,
    /// Entry under the pointer in the open menu.
    pub hovered_item: Option<usize>,
}

/// What a click hit.
#[derive(Debug, Clone, PartialEq, Eq)]
pub enum MenuHit {
    /// A title on the bar.
    Label(usize),
    /// An enabled item of the open menu.
    Item {
        /// The item's identifier.
        id: String,
    },
    /// Inside the open menu, but not on an enabled item.
    NoOp,
    /// Anywhere else.
    Outside,
}

/// Horizontal padding on each side of a title.
pub const LABEL_PAD_X: i32 = 8;

/// Width of one character of a title or item.
pub const LABEL_CHAR_W: i32 = 7;

/// Height of an item row.
pub const ITEM_H: i32 = 20;

/// Horizontal padding on each side of an item.
pub const ITEM_PAD_X: i32 = 22;

/// Narrowest drop-down.
pub const DROPDOWN_MIN_W: u32 = 120;

/// Height of a separator row.
pub const SEPARATOR_H: i32 = 6;

// ---------------------------------------------------------------------------
// The model of the bar's geometry.
// ---------------------------------------------------------------------------
/// Width of a title on the bar.
pub open spec fn label_width(m: Menu) -> int {
    m.label@.len() as int * 7 + 16
}

/// Widths of all titles.
pub open spec fn label_widths(ms: Seq<Menu>) -> Seq<int> {
    ms.map_values(|m: Menu| label_width(m))
}

/// Left edge of title `i`, relative to the bar.
pub open spec fn label_start(ms: Seq<Menu>, i: int) -> int {
    6 + sum_of(label_widths(ms).take(i))
}

/// Whether relative offset `rel` lies on title `i`.
pub open spec fn on_label(ms: Seq<Menu>, rel: int) -> spec_fn(int) -> bool {
    |i: int| label_start(ms, i) <= rel < label_start(ms, i) + label_width(ms[i])
}

/// Whether every title's width and position fit in `i32`.
pub open spec fn labels_fit(ms: Seq<Menu>) -> bool {
    &&& forall|i: int| 0 <= i < ms.len() ==> (#[trigger] ms[i]).label@.len() * 7 + 16 <= i32::MAX
    &&& 6 + sum_of(label_widths(ms)) <= i32::MAX
}

/// Height of an entry's row.
pub open spec fn entry_height(e: MenuEntry) -> int {
    match e {
        MenuEntry::Action { .. } => 20,
        MenuEntry::Separator => 6,
    }
}

/// Heights of all entry rows.
pub open spec fn entry_heights(es: Seq<MenuEntry>) -> Seq<int> {
    es.map_values(|e: MenuEntry| entry_height(e))
}

/// Top of entry `k`'s row, relative to the top of the drop-down.
pub open spec fn entry_top(es: Seq<MenuEntry>, k: int) -> int {
    4 + sum_of(entry_heights(es).take(k))
}

/// Height of a drop-down.
pub open spec fn dropdown_height_spec(es: Seq<MenuEntry>) -> int {
    8 + sum_of(entry_heights(es))
}

/// Width of an entry's label text.
pub open spec fn label_cols(e: MenuEntry) -> int {
    match e {
        MenuEntry::Action { label, .. } => label@.len() as int * 7,
        MenuEntry::Separator => 0,
    }
}

/// Width of an entry's shortcut text (zero without one).
pub open spec fn shortcut_cols(e: MenuEntry) -> int {
    match e {
        MenuEntry::Action { shortcut: Some(s), .. } => s@.len() as int * 7,
        _ => 0,
    }
}

/// Whether an entry shows a shortcut.
pub open spec fn has_shortcut(e: MenuEntry) -> bool {
    e matches MenuEntry::Action { shortcut: Some(_), .. }
}

/// The largest entry of `s`, or zero.
pub open spec fn seq_max(s: Seq<int>) -> int
    decreases s.len(),
{
    if s.len() == 0 {
        0
    } else {
        let m = seq_max(s.drop_last());
        if s.last() > m {
            s.last()
        } else {
            m
        }
    }
}

/// Width of a drop-down before the minimum applies: padding, the widest
/// label and, when any entry has one, a gap and the widest shortcut.
pub open spec fn dropdown_natural_width(es: Seq<MenuEntry>) -> int {
    let any_sc = exists|k: int| 0 <= k < es.len() && has_shortcut(#[trigger] es[k]);
    22 + seq_max(es.map_values(|e: MenuEntry| label_cols(e))) + (if any_sc {
        16 + seq_max(es.map_values(|e: MenuEntry| shortcut_cols(e)))
    } else {
        0
    }) + 22
}

/// Width of a drop-down.
pub open spec fn dropdown_width_spec(es: Seq<MenuEntry>) -> int {
    let w = dropdown_natural_width(es);
    if w > 120 {
        w
    } else {
        120
    }
}

/// Whether a drop-down's size computations fit in `i32`.
pub open spec fn entries_fit(es: Seq<MenuEntry>) -> bool {
    &&& forall|k: int|
        0 <= k < es.len() ==> #[trigger] label_cols(es[k]) <= i32::MAX && shortcut_cols(es[k])
            <= i32::MAX
    &&& dropdown_natural_width(es) <= i32::MAX
    &&& dropdown_height_spec(es) <= i32::MAX
}

/// Whether vertical position `y` (relative to the drop-down's top) lies on
/// the row of action `k`.
pub open spec fn on_action(es: Seq<MenuEntry>, y: int) -> spec_fn(int) -> bool {
    |k: int| es[k] is Action && entry_top(es, k) <= y < entry_top(es, k) + 20
}

/// Left edge of the open drop-down.
pub open spec fn dropdown_x(ms: Seq<Menu>, idx: int, bar_x: i32) -> int {
    bar_x + label_start(ms, idx)
}

/// Top edge of the drop-downs.
pub open spec fn dropdown_y(bar_y: i32, bar_h: u32) -> int {
    bar_y + as_i32(bar_h)
}

/// Whether `(x, y)` lies inside the drop-down of menu `idx`.
pub open spec fn in_dropdown(ms: Seq<Menu>, idx: int, x: i32, y: i32, bar_x: i32, bar_y: i32, bar_h: u32) -> bool {
    let dx = dropdown_x(ms, idx, bar_x);
    let dy = dropdown_y(bar_y, bar_h);
    dx <= x < dx + dropdown_width_spec(ms[idx].entries@) && dy <= y < dy + dropdown_height_spec(
        ms[idx].entries@,
    )
}

/// Whether `(x, y)` lies on the bar.
pub open spec fn on_bar(x: i32, y: i32, bar_x: i32, bar_y: i32, bar_w: u32, bar_h: u32) -> bool {
    y >= bar_y && y < bar_y + as_i32(bar_h) && x >= bar_x && x < bar_x + as_i32(bar_w)
}

/// Whether looking into the drop-down of menu `idx` stays inside `i32`.
pub open spec fn dropdown_fits(ms: Seq<Menu>, idx: int, x: i32, y: i32, bar_x: i32, bar_y: i32, bar_h: u32) -> bool {
    let es = ms[idx].entries@;
    let dx = dropdown_x(ms, idx, bar_x);
    let dy = dropdown_y(bar_y, bar_h);
    &&& 0 <= idx < ms.len()
    &&& labels_fit(ms)
    &&& entries_fit(es)
    &&& i32::MIN <= dx <= i32::MAX
    &&& i32::MIN <= dy <= i32::MAX
    &&& x >= dx ==> dx + dropdown_width_spec(es) <= i32::MAX
    &&& (x >= dx && x < dx + dropdown_width_spec(es) && y >= dy) ==> dy + dropdown_height_spec(es)
        <= i32::MAX
}

/// What a click at `(x, y)` hits while menu `idx` is open, off the bar.
pub open spec fn dropdown_hit_spec(
    ms: Seq<Menu>,
    idx: int,
    x: i32,
    y: i32,
    bar_x: i32,
    bar_y: i32,
    bar_h: u32,
) -> MenuHit {
    if in_dropdown(ms, idx, x, y, bar_x, bar_y, bar_h) {
        let es = ms[idx].entries@;
        match least_in(on_action(es, y - dropdown_y(bar_y, bar_h)), 0, es.len() - 1) {
            Some(k) => match es[k] {
                MenuEntry::Action { id, enabled, .. } => if enabled {
                    MenuHit::Item { id }
                } else {
                    MenuHit::NoOp
                },
                MenuEntry::Separator => MenuHit::NoOp,
            },
            None => MenuHit::NoOp,
        }
    } else {
        MenuHit::Outside
    }
}

/// What a click at `(x, y)` hits.
pub open spec fn hit_spec(
    ms: Seq<Menu>,
    open: Option<usize>,
    x: i32,
    y: i32,
    bar_x: i32,
    bar_y: i32,
    bar_w: u32,
    bar_h: u32,
) -> MenuHit {
    if on_bar(x, y, bar_x, bar_y, bar_w, bar_h) {
        match least_in(on_label(ms, x - bar_x), 0, ms.len() - 1) {
            Some(i) => MenuHit::Label(i as usize),
            None => MenuHit::Outside,
        }
    } else {
        match open {
            Some(idx) => dropdown_hit_spec(ms, idx as int, x, y, bar_x, bar_y, bar_h),
            None => MenuHit::Outside,
        }
    }
}

/// The entry hovered by the pointer at `(x, y)` while menu `idx` is open.
pub open spec fn hover_spec(ms: Seq<Menu>, idx: int, x: i32, y: i32, bar_x: i32, bar_y: i32, bar_h: u32) -> Option<
    usize,
> {
    if in_dropdown(ms, idx, x, y, bar_x, bar_y, bar_h) {
        let es = ms[idx].entries@;
        match least_in(on_action(es, y - dropdown_y(bar_y, bar_h)), 0, es.len() - 1) {
            Some(k) => Some(k as usize),
            None => None,
        }
    } else {
        None
    }
}

proof fn lemma_widths_nonneg(ms: Seq<Menu>)
    ensures
        all_nonneg(label_widths(ms)),
{
}

proof fn lemma_heights_nonneg(es: Seq<MenuEntry>)
    ensures
        all_nonneg(entry_heights(es)),
{
}

proof fn lemma_seq_max_step(s: Seq<int>, i: int)
    requires
        0 <= i < s.len(),
    ensures
        seq_max(s.take(i + 1)) == if s[i] > seq_max(s.take(i)) {
            s[i]
        } else {
            seq_max(s.take(i))
        },
{
    assert(s.take(i + 1).drop_last() =~= s.take(i));
}

proof fn lemma_seq_max_bounds(s: Seq<int>)
    ensures
        seq_max(s) >= 0,
    decreases s.len(),
{
    if s.len() > 0 {
        lemma_seq_max_bounds(s.drop_last());
    }
}

/// Whether `e` is an enabled action with identifier `id`.
pub open spec fn enabled_action_with_id(e: MenuEntry, id: String) -> bool {
    match e {
        MenuEntry::Action { id: kid, enabled, .. } => kid == id && enabled,
        MenuEntry::Separator => false,
    }
}

/// What a click hits is sound: on the bar it is a title that exists or
/// nothing; an item identifier only ever comes from an enabled action of the
/// open menu.
pub proof fn lemma_hit_sound(
    ms: Seq<Menu>,
    open: Option<usize>,
    x: i32,
    y: i32,
    bar_x: i32,
    bar_y: i32,
    bar_w: u32,
    bar_h: u32,
)
    requires
        open matches Some(idx) ==> idx < ms.len(),
    ensures
        on_bar(x, y, bar_x, bar_y, bar_w, bar_h) ==> match hit_spec(
            ms,
            open,
            x,
            y,
            bar_x,
            bar_y,
            bar_w,
            bar_h,
        ) {
            MenuHit::Label(i) => i < ms.len(),
            MenuHit::Outside => true,
            _ => false,
        },
        hit_spec(ms, open, x, y, bar_x, bar_y, bar_w, bar_h) matches MenuHit::Item { id } ==> {
            &&& open is Some
            &&& exists|k: int|
                0 <= k < ms[open->0 as int].entries@.len() && #[trigger] enabled_action_with_id(
                    ms[open->0 as int].entries@[k],
                    id,
                )
        },
{
    if on_bar(x, y, bar_x, bar_y, bar_w, bar_h) {
        let p = on_label(ms, x - bar_x);
        if least_in(p, 0, ms.len() - 1) is Some {
            let k0 = choose|k: int| 0 <= k <= ms.len() - 1 && #[trigger] p(k);
            lemma_least_in_some(p, 0, ms.len() - 1, k0);
        }
    } else if open is Some {
        let idx = open->0 as int;
        if in_dropdown(ms, idx, x, y, bar_x, bar_y, bar_h) {
            let es = ms[idx].entries@;
            let q = on_action(es, y - dropdown_y(bar_y, bar_h));
            if least_in(q, 0, es.len() - 1) is Some {
                let k0 = choose|k: int| 0 <= k <= es.len() - 1 && #[trigger] q(k);
                lemma_least_in_some(q, 0, es.len() - 1, k0);
                let k = least_in(q, 0, es.len() - 1)->0;
                if hit_spec(ms, open, x, y, bar_x, bar_y, bar_w, bar_h) is Item {
                    assert(0 <= k < es.len());
                    assert(enabled_action_with_id(es[k], hit_spec(ms, open, x, y, bar_x, bar_y, bar_w, bar_h)->id));
                }
            }
        }
    }
}

/// Titles tile the bar: each title starts where the previous one ends.
pub proof fn lemma_titles_tile(ms: Seq<Menu>, i: int)
    requires
        0 <= i < ms.len(),
    ensures
        label_start(ms, i + 1) == label_start(ms, i) + label_width(ms[i]),
{
    lemma_sum_take_step(label_widths(ms), i);
}

/// A point on a title's extent of the bar hits that title.
pub proof fn lemma_label_hit_matches_layout(ms: Seq<Menu>, i: int, rel: int)
    requires
        0 <= i < ms.len(),
        label_start(ms, i) <= rel < label_start(ms, i) + label_width(ms[i]),
    ensures
        least_in(on_label(ms, rel), 0, ms.len() - 1) == Some(i),
{
    let ws = label_widths(ms);
    lemma_widths_nonneg(ms);
    assert forall|j: int| 0 <= j < i implies !#[trigger] on_label(ms, rel)(j) by {
        lemma_sum_take_step(ws, j);
        lemma_sum_prefix_mono(ws, j + 1, i);
    }
    lemma_least_in_is(on_label(ms, rel), 0, ms.len() - 1, i);
}

/// Prefix sums of non-negative entries grow with the prefix.
proof fn lemma_sum_prefix_mono(s: Seq<int>, a: int, b: int)
    requires
        0 <= a <= b <= s.len(),
        all_nonneg(s),
    ensures
        sum_of(s.take(a)) <= sum_of(s.take(b)),
    decreases b - a,
{
    if a < b {
        lemma_sum_take_step(s, b - 1);
        lemma_sum_prefix_mono(s, a, b - 1);
    }
}

/// Width of a title, computed as the bar lays it out.
fn title_width(m: &Menu) -> (w: i32)
    requires
        m.label@.len() * 7 + 16 <= i32::MAX,
    ensures
        w == label_width(*m),
{
    let n = m.label.as_str().unicode_len();
    (n as i32) * LABEL_CHAR_W + LABEL_PAD_X * 2
}

/// What title `i` draws on a bar at `(bar_x, bar_y)`, `bar_h` tall: the
/// hot fill behind the open menu's title, then the title text.
pub open spec fn bar_title_ops(bar: MenuBar, style: MenuStyle, bar_x: i32, bar_y: i32, bar_h: u32, i: int) -> Seq<
    DrawCmd,
> {
    let ms = bar.menus@;
    let lx = bar_x + label_start(ms, i);
    let open = bar.open == Some(i as usize);
    (if open {
        seq![
            DrawCmd::FillRect {
                x: lx as i32,
                y: (bar_y + 2) as i32,
                w: label_width(ms[i]) as u32,
                h: (bar_h - 4) as u32,
                color: style.label_hot_bg,
            },
        ]
    } else {
        Seq::empty()
    }) + seq![
        DrawCmd::Text {
            text: ms[i].label@,
            x: (lx + 8) as i32,
            y: (bar_y + trunc_div(bar_h - style.font_size, 2)) as i32,
            font_size: style.font_size,
            color: if open {
                style.label_hot_text
            } else {
                style.label_text
            },
        },
    ]
}

/// The first `k` titles of the bar.
pub open spec fn bar_titles_ops(bar: MenuBar, style: MenuStyle, bar_x: i32, bar_y: i32, bar_h: u32, k: nat) -> Seq<
    DrawCmd,
>
    decreases k,
{
    if k == 0 {
        Seq::empty()
    } else {
        bar_titles_ops(bar, style, bar_x, bar_y, bar_h, (k - 1) as nat) + bar_title_ops(
            bar,
            style,
            bar_x,
            bar_y,
            bar_h,
            k - 1,
        )
    }
}

/// Everything the bar itself draws at `(bar_x, bar_y)`, `bar_w` by
/// `bar_h`: its fill, the line along its bottom edge, then each title.
pub open spec fn bar_ops(bar: MenuBar, style: MenuStyle, bar_x: i32, bar_y: i32, bar_w: u32, bar_h: u32) -> Seq<
    DrawCmd,
> {
    seq![
        DrawCmd::FillRect { x: bar_x, y: bar_y, w: bar_w, h: bar_h, color: style.bar_bg },
        DrawCmd::FillRect { x: bar_x, y: (bar_y + bar_h - 1) as i32, w: bar_w, h: 1, color: style.bar_border },
    ] + bar_titles_ops(bar, style, bar_x, bar_y, bar_h, bar.menus@.len())
}

/// Whether drawing the bar stays inside `i32` and `u32` arithmetic: the
/// titles fit, and a bar with an open menu is at least 4 pixels tall.
pub open spec fn bar_draw_fits(bar: MenuBar, style: MenuStyle, bar_x: i32, bar_y: i32, bar_h: u32) -> bool {
    &&& labels_fit(bar.menus@)
    &&& bar_h <= i32::MAX
    &&& bar_y + bar_h <= i32::MAX
    &&& bar_y + bar_h - 1 >= i32::MIN
    &&& bar_y + trunc_div(bar_h - style.font_size, 2) >= i32::MIN
    &&& bar_x + 6 + sum_of(label_widths(bar.menus@)) + 8 <= i32::MAX
    &&& bar.open is Some ==> bar_h >= 4
}

/// What entry `k` of the open drop-down (left edge `dx`, top `dy`, width
/// `dw`) draws: an action shows the hot bar when hovered and enabled, its
/// label and, right-aligned, its shortcut (`sc_w` wide); a separator is a
/// one-pixel rule.
pub open spec fn dropdown_entry_ops(
    bar: MenuBar,
    style: MenuStyle,
    es: Seq<MenuEntry>,
    dx: int,
    dy: int,
    dw: int,
    sc_w: Seq<u32>,
    k: int,
) -> Seq<DrawCmd> {
    let iy = dy + entry_top(es, k);
    match es[k] {
        MenuEntry::Action { label, shortcut, enabled, .. } => {
            let hot = bar.hovered_item == Some(k as usize) && enabled;
            let color = if !enabled {
                style.item_disabled_text
            } else if hot {
                style.item_hot_text
            } else {
                style.item_text
            };
            let ty = iy + trunc_div(20 - style.font_size, 2);
            let fill = if hot {
                seq![
                    DrawCmd::FillRect {
                        x: (dx + 2) as i32,
                        y: iy as i32,
                        w: (dw - 4) as u32,
                        h: 20,
                        color: style.item_hot_bg,
                    },
                ]
            } else {
                Seq::empty()
            };
            let sc = match shortcut {
                Some(t) => seq![
                    DrawCmd::Text {
                        text: t@,
                        x: (dx + dw - sc_w[k] - 22) as i32,
                        y: ty as i32,
                        font_size: style.font_size,
                        color,
                    },
                ],
                None => Seq::empty(),
            };
            fill + seq![
                DrawCmd::Text {
                    text: label@,
                    x: (dx + 22) as i32,
                    y: ty as i32,
                    font_size: style.font_size,
                    color,
                },
            ] + sc
        },
        MenuEntry::Separator => seq![
            DrawCmd::FillRect {
                x: (dx + 4) as i32,
                y: (iy + 3) as i32,
                w: (dw - 8) as u32,
                h: 1,
                color: style.separator,
            },
        ],
    }
}

/// The operations of the first `k` entries of the open drop-down.
pub open spec fn dropdown_entries_ops(
    bar: MenuBar,
    style: MenuStyle,
    es: Seq<MenuEntry>,
    dx: int,
    dy: int,
    dw: int,
    sc_w: Seq<u32>,
    k: nat,
) -> Seq<DrawCmd>
    decreases k,
{
    if k == 0 {
        Seq::empty()
    } else {
        dropdown_entries_ops(bar, style, es, dx, dy, dw, sc_w, (k - 1) as nat) + dropdown_entry_ops(
            bar,
            style,
            es,
            dx,
            dy,
            dw,
            sc_w,
            k - 1,
        )
    }
}

/// The raised bezel of a drop-down at `(dx, dy)` of size `dw` by `dh`: the
/// fill, a light top and left edge, a dark bottom and right edge.
pub open spec fn bezel_ops(style: MenuStyle, dx: int, dy: int, dw: int, dh: int) -> Seq<DrawCmd> {
    seq![
        DrawCmd::FillRect { x: dx as i32, y: dy as i32, w: dw as u32, h: dh as u32, color: style.dropdown_bg },
        DrawCmd::FillRect { x: dx as i32, y: dy as i32, w: dw as u32, h: 1, color: style.dropdown_border_light },
        DrawCmd::FillRect { x: dx as i32, y: dy as i32, w: 1, h: dh as u32, color: style.dropdown_border_light },
        DrawCmd::FillRect {
            x: dx as i32,
            y: (dy + dh - 1) as i32,
            w: dw as u32,
            h: 1,
            color: style.dropdown_border_dark,
        },
        DrawCmd::FillRect {
            x: (dx + dw - 1) as i32,
            y: dy as i32,
            w: 1,
            h: dh as u32,
            color: style.dropdown_border_dark,
        },
    ]
}

/// Everything the open drop-down of a bar at `(bar_x, bar_y)`, `bar_h`
/// tall, draws: nothing while no menu is open; otherwise its bezel under
/// the open title, then each entry in order.
pub open spec fn dropdown_ops(
    bar: MenuBar,
    style: MenuStyle,
    bar_x: i32,
    bar_y: i32,
    bar_h: u32,
    sc_w: Seq<u32>,
) -> Seq<DrawCmd> {
    match bar.open {
        None => Seq::empty(),
        Some(idx) => {
            let es = bar.menus@[idx as int].entries@;
            let dx = dropdown_x(bar.menus@, idx as int, bar_x);
            let dy = dropdown_y(bar_y, bar_h);
            let dw = dropdown_width_spec(es);
            bezel_ops(style, dx, dy, dw, dropdown_height_spec(es)) + dropdown_entries_ops(
                bar,
                style,
                es,
                dx,
                dy,
                dw,
                sc_w,
                es.len(),
            )
        },
    }
}

/// Whether drawing the open drop-down stays inside `i32` arithmetic, given
/// the measured width of each entry's shortcut.
pub open spec fn dropdown_draw_fits(
    bar: MenuBar,
    style: MenuStyle,
    bar_x: i32,
    bar_y: i32,
    bar_h: u32,
    sc_w: Seq<u32>,
) -> bool {
    match bar.open {
        None => true,
        Some(idx) => {
            let es = bar.menus@[idx as int].entries@;
            let dx = dropdown_x(bar.menus@, idx as int, bar_x);
            let dy = dropdown_y(bar_y, bar_h);
            let dw = dropdown_width_spec(es);
            &&& idx < bar.menus@.len()
            &&& labels_fit(bar.menus@)
            &&& entries_fit(es)
            &&& sc_w.len() == es.len()
            &&& i32::MIN <= dx && dx + dw <= i32::MAX
            &&& i32::MIN <= dy && dy + dropdown_height_spec(es) <= i32::MAX
            &&& dy + trunc_div(20 - style.font_size, 2) >= i32::MIN
            &&& forall|k: int|
                0 <= k < es.len() ==> #[trigger] sc_w[k] <= i32::MAX && dx + dw - sc_w[k] - 22 >= i32::MIN
        },
    }
}

impl MenuBar {
    /// Create a bar with every menu closed.
    pub fn new(menus: Vec<Menu>) -> (r: Self)
        ensures
            r.menus@ == menus@,
            r.open.is_none(),
            r.hovered_item.is_none(),
    {
        MenuBar { menus, open: None, hovered_item: None }
    }

    /// Close the open menu and forget the hovered entry.
    pub fn close(&mut self)
        ensures
            final(self).menus@ == old(self).menus@,
            final(self).open.is_none(),
            final(self).hovered_item.is_none(),
    {
        self.open = None;
        self.hovered_item = None;
    }

    /// Whether a menu is open.
    pub fn is_open(&self) -> (r: bool)
        ensures
            r == self.open.is_some(),
    {
        self.open.is_some()
    }

    /// Left edge and width of title `index` (past the last title: the end
    /// of the titles and zero).
    fn label_range(&self, index: usize) -> (r: (i32, i32))
        requires
            labels_fit(self.menus@),
        ensures
            index < self.menus@.len() ==> r.0 == label_start(self.menus@, index as int) && r.1
                == label_width(self.menus@[index as int]),
            index >= self.menus@.len() ==> r.0 == 6 + sum_of(label_widths(self.menus@)) && r.1 == 0,
    {
        let ghost ws = label_widths(self.menus@);
        proof {
            lemma_widths_nonneg(self.menus@);
        }
        let mut x: i32 = 6;
        let mut i: usize = 0;
        while i < self.menus.len()
            invariant
                0 <= i <= self.menus@.len(),
                ws == label_widths(self.menus@),
                all_nonneg(ws),
                labels_fit(self.menus@),
                x == 6 + sum_of(ws.take(i as int)),
                index < self.menus@.len() ==> i <= index,
            decreases self.menus@.len() - i,
        {
            proof {
                lemma_sum_take_step(ws, i as int);
                lemma_sum_prefix_bounds(ws, i as int + 1);
            }
            let w = title_width(&self.menus[i]);
            if i == index {
                return (x, w);
            }
            x = x + w;
            i = i + 1;
        }
        proof {
            crate::sums::lemma_sum_take_all(ws);
        }
        (x, 0)
    }

    /// Width of a drop-down: wide enough for the widest label and, when any
    /// entry has one, the widest shortcut; never narrower than the minimum.
    fn dropdown_width(menu: &Menu) -> (r: u32)
        requires
            entries_fit(menu.entries@),
        ensures
            r == dropdown_width_spec(menu.entries@),
    {
        let ghost es = menu.entries@;
        let ghost ls = es.map_values(|e: MenuEntry| label_cols(e));
        let ghost ss = es.map_values(|e: MenuEntry| shortcut_cols(e));
        let mut max_label: i32 = 0;
        let mut any_shortcut = false;
        let mut max_shortcut: i32 = 0;
        let mut k: usize = 0;
        while k < menu.entries.len()
            invariant
                0 <= k <= es.len(),
                es == menu.entries@,
                ls == es.map_values(|e: MenuEntry| label_cols(e)),
                ss == es.map_values(|e: MenuEntry| shortcut_cols(e)),
                entries_fit(es),
                max_label == seq_max(ls.take(k as int)),
                max_shortcut == seq_max(ss.take(k as int)),
                any_shortcut == exists|j: int| 0 <= j < k && has_shortcut(#[trigger] es[j]),
            decreases es.len() - k,
        {
            proof {
                lemma_seq_max_step(ls, k as int);
                lemma_seq_max_step(ss, k as int);
            }
            match &menu.entries[k] {
                MenuEntry::Action { label, shortcut, .. } => {
                    let lw = (label.as_str().unicode_len() as i32) * LABEL_CHAR_W;
                    if lw > max_label {
                        max_label = lw;
                    }
                    match shortcut {
                        Some(sc) => {
                            any_shortcut = true;
                            let sw = (sc.as_str().unicode_len() as i32) * LABEL_CHAR_W;
                            if sw > max_shortcut {
                                max_shortcut = sw;
                            }
                        },
                        None => {},
                    }
                },
                MenuEntry::Separator => {},
            }
            proof {
                assert(es.take(k as int + 1) =~= es.take(k as int).push(es[k as int]));
                if any_shortcut {
                    if !has_shortcut(es[k as int]) {
                        let j = choose|j: int| 0 <= j < k && has_shortcut(#[trigger] es[j]);
                        assert(0 <= j < k + 1 && has_shortcut(es[j]));
                    }
                }
            }
            k = k + 1;
        }
        proof {
            assert(ls.take(es.len() as int) =~= ls);
            assert(ss.take(es.len() as int) =~= ss);
            lemma_seq_max_bounds(ls);
            lemma_seq_max_bounds(ss);
        }
        let extra = if any_shortcut {
            16 + max_shortcut
        } else {
            0
        };
        let total = ITEM_PAD_X + max_label + extra + ITEM_PAD_X;
        let t = total as u32;
        if t > DROPDOWN_MIN_W {
            t
        } else {
            DROPDOWN_MIN_W
        }
    }

    /// Height of a drop-down: its rows plus padding above and below.
    fn dropdown_height(menu: &Menu) -> (r: u32)
        requires
            entries_fit(menu.entries@),
        ensures
            r == dropdown_height_spec(menu.entries@),
    {
        let ghost hs = entry_heights(menu.entries@);
        proof {
            lemma_heights_nonneg(menu.entries@);
        }
        let mut h: i32 = 4;
        let mut k: usize = 0;
        while k < menu.entries.len()
            invariant
                0 <= k <= menu.entries@.len(),
                hs == entry_heights(menu.entries@),
                all_nonneg(hs),
                entries_fit(menu.entries@),
                h == 4 + sum_of(hs.take(k as int)),
            decreases menu.entries@.len() - k,
        {
            proof {
                lemma_sum_take_step(hs, k as int);
                lemma_sum_prefix_bounds(hs, k as int + 1);
            }
            h = h + match &menu.entries[k] {
                MenuEntry::Action { .. } => ITEM_H,
                MenuEntry::Separator => SEPARATOR_H,
            };
            k = k + 1;
        }
        proof {
            crate::sums::lemma_sum_take_all(hs);
            crate::sums::lemma_sum_nonneg(hs);
        }
        (h + 4) as u32
    }

    /// Width and height of a menu's drop-down.
    pub fn dropdown_dimensions(&self, menu: &Menu) -> (r: (u32, u32))
        requires
            entries_fit(menu.entries@),
        ensures
            r.0 == dropdown_width_spec(menu.entries@),
            r.1 == dropdown_height_spec(menu.entries@),
    {
        (Self::dropdown_width(menu), Self::dropdown_height(menu))
    }

    /// The first action row of `menu` containing `y`, scanning rows from
    /// `top + 4`.
    fn action_row_at(menu: &Menu, top: i32, y: i32) -> (r: Option<usize>)
        requires
            entries_fit(menu.entries@),
            top + dropdown_height_spec(menu.entries@) <= i32::MAX,
        ensures
            r == (match least_in(on_action(menu.entries@, y - top), 0, menu.entries@.len() - 1) {
                Some(k) => Some(k as usize),
                None => None,
            }),
            r matches Some(k) ==> k < menu.entries@.len(),
            match least_in(on_action(menu.entries@, y - top), 0, menu.entries@.len() - 1) {
                Some(k) => 0 <= k < menu.entries@.len(),
                None => true,
            },
    {
        let ghost es = menu.entries@;
        let ghost hs = entry_heights(es);
        let ghost p = on_action(es, y - top);
        proof {
            lemma_heights_nonneg(es);
            crate::sums::lemma_sum_nonneg(hs);
        }
        let mut item_y: i32 = top + 4;
        let mut k: usize = 0;
        while k < menu.entries.len()
            invariant
                0 <= k <= es.len(),
                es == menu.entries@,
                hs == entry_heights(es),
                p == on_action(es, y - top),
                all_nonneg(hs),
                top + dropdown_height_spec(es) <= i32::MAX,
                item_y == top + entry_top(es, k as int),
                forall|j: int| 0 <= j < k ==> !#[trigger] p(j),
            decreases es.len() - k,
        {
            proof {
                lemma_sum_take_step(hs, k as int);
                lemma_sum_prefix_bounds(hs, k as int + 1);
            }
            match &menu.entries[k] {
                MenuEntry::Action { .. } => {
                    if y >= item_y && y < item_y + ITEM_H {
                        proof {
                            lemma_least_in_is(p, 0, es.len() - 1, k as int);
                        }
                        return Some(k);
                    }
                    item_y = item_y + ITEM_H;
                },
                MenuEntry::Separator => {
                    item_y = item_y + SEPARATOR_H;
                },
            }
            k = k + 1;
        }
        proof {
            lemma_least_in_none(p, 0, es.len() - 1);
        }
        None
    }

    /// The title under offset `rel` from the bar's left edge.
    fn label_at(&self, rel: i32) -> (r: Option<usize>)
        requires
            labels_fit(self.menus@),
        ensures
            r == (match least_in(on_label(self.menus@, rel as int), 0, self.menus@.len() - 1) {
                Some(i) => Some(i as usize),
                None => None,
            }),
    {
        let ghost ms = self.menus@;
        let ghost ws = label_widths(ms);
        let ghost p = on_label(ms, rel as int);
        proof {
            lemma_widths_nonneg(ms);
        }
        let mut cursor: i32 = 6;
        let mut i: usize = 0;
        while i < self.menus.len()
            invariant
                0 <= i <= ms.len(),
                ms == self.menus@,
                ws == label_widths(ms),
                p == on_label(ms, rel as int),
                all_nonneg(ws),
                labels_fit(ms),
                cursor == 6 + sum_of(ws.take(i as int)),
                forall|j: int| 0 <= j < i ==> !#[trigger] p(j),
            decreases ms.len() - i,
        {
            proof {
                lemma_sum_take_step(ws, i as int);
                lemma_sum_prefix_bounds(ws, i as int + 1);
            }
            let w = title_width(&self.menus[i]);
            if rel >= cursor && rel < cursor + w {
                proof {
                    lemma_least_in_is(p, 0, ms.len() - 1, i as int);
                }
                return Some(i);
            }
            cursor = cursor + w;
            i = i + 1;
        }
        proof {
            lemma_least_in_none(p, 0, ms.len() - 1);
        }
        None
    }

    /// What a click at `(x, y)` hits inside the drop-down of menu `idx`.
    #[verifier::rlimit(50)]
    fn dropdown_hit(&self, idx: usize, x: i32, y: i32, bar_x: i32, bar_y: i32, bar_h: u32) -> (r:
        MenuHit)
        requires
            dropdown_fits(self.menus@, idx as int, x, y, bar_x, bar_y, bar_h),
        ensures
            r == dropdown_hit_spec(self.menus@, idx as int, x, y, bar_x, bar_y, bar_h),
    {
        let menu = &self.menus[idx];
        let (label_x, _label_w) = self.label_range(idx);
        let dd_x = bar_x + label_x;
        let dd_y = bar_y + crate::layout::to_i32(bar_h);
        let dd_w = Self::dropdown_width(menu) as i32;
        let dd_h = Self::dropdown_height(menu) as i32;
        assert(dd_x == dropdown_x(self.menus@, idx as int, bar_x));
        assert(dd_y == dropdown_y(bar_y, bar_h));
        assert(dd_w == dropdown_width_spec(self.menus@[idx as int].entries@));
        assert(dd_h == dropdown_height_spec(self.menus@[idx as int].entries@));
        if x >= dd_x && x < dd_x + dd_w && y >= dd_y && y < dd_y + dd_h {
            assert(in_dropdown(self.menus@, idx as int, x, y, bar_x, bar_y, bar_h));
            let ghost es = self.menus@[idx as int].entries@;
            let n_entries = menu.entries.len();
            let ghost found = least_in(on_action(es, y - dropdown_y(bar_y, bar_h)), 0, es.len() - 1);
            match Self::action_row_at(menu, dd_y, y) {
                Some(k) => {
                    proof {
                        assert(menu.entries@ == es);
                        assert(found is Some);
                        let kk = found->0;
                        assert(0 <= kk < es.len());
                        assert(k == kk as usize);
                        assert(k as int == kk);
                    }
                    assert(found == Some(k as int));
                    match &menu.entries[k] {
                        MenuEntry::Action { id, enabled, .. } => {
                            if *enabled {
                                let r = MenuHit::Item { id: id.clone() };
                                assert(r == dropdown_hit_spec(self.menus@, idx as int, x, y, bar_x, bar_y, bar_h));
                                r
                            } else {
                                MenuHit::NoOp
                            }
                        },
                        MenuEntry::Separator => MenuHit::NoOp,
                    }
                },
                None => {
                    assert(found is None);
                    MenuHit::NoOp
                },
            }
        } else {
            MenuHit::Outside
        }
    }

    /// What drawing the bar at `(bar_x, bar_y)`, `bar_w` by `bar_h`, asks
    /// the renderer to draw.
    pub fn draw_bar(&self, bar_x: i32, bar_y: i32, bar_w: u32, bar_h: u32, style: &MenuStyle) -> (r: Vec<
        DrawOp,
    >)
        requires
            bar_draw_fits(*self, *style, bar_x, bar_y, bar_h),
        ensures
            cmds(r@) == bar_ops(*self, *style, bar_x, bar_y, bar_w, bar_h),
    {
        let mut out: Vec<DrawOp> = Vec::new();
        out.push(DrawOp::FillRect { x: bar_x, y: bar_y, w: bar_w, h: bar_h, color: style.bar_bg });
        out.push(
            DrawOp::FillRect { x: bar_x, y: bar_y + bar_h as i32 - 1, w: bar_w, h: 1, color: style.bar_border },
        );
        let ghost head = cmds(out@);
        let fs = style.font_size;
        let d: i32 = bar_h as i32 - fs as i32;
        let off: i32 = if d >= 0 {
            d / 2
        } else {
            -((-d) / 2)
        };
        assert(off == trunc_div(bar_h - style.font_size, 2));
        let ghost ws = label_widths(self.menus@);
        proof {
            lemma_widths_nonneg(self.menus@);
            crate::sums::lemma_sum_take_all(ws);
        }
        let n = self.menus.len();
        let mut cursor: i32 = 6;
        let mut i: usize = 0;
        while i < n
            invariant
                n == self.menus@.len(),
                i <= n,
                ws == label_widths(self.menus@),
                all_nonneg(ws),
                sum_of(ws.take(n as int)) == sum_of(ws),
                bar_draw_fits(*self, *style, bar_x, bar_y, bar_h),
                fs == style.font_size,
                off == trunc_div(bar_h - style.font_size, 2),
                off <= bar_h,
                cursor == label_start(self.menus@, i as int),
                cmds(out@) == head + bar_titles_ops(*self, *style, bar_x, bar_y, bar_h, i as nat),
            decreases n - i,
        {
            proof {
                lemma_sum_take_step(ws, i as int);
                lemma_sum_prefix_bounds(ws, i as int + 1);
                lemma_sum_prefix_bounds(ws, i as int);
            }
            let w = title_width(&self.menus[i]);
            let open = match self.open {
                Some(k) => k == i,
                None => false,
            };
            let mut ops: Vec<DrawOp> = Vec::new();
            if open {
                ops.push(
                    DrawOp::FillRect {
                        x: bar_x + cursor,
                        y: bar_y + 2,
                        w: w as u32,
                        h: bar_h - 4,
                        color: style.label_hot_bg,
                    },
                );
            }
            ops.push(
                DrawOp::Text {
                    text: self.menus[i].label.clone(),
                    x: bar_x + cursor + LABEL_PAD_X,
                    y: bar_y + off,
                    font_size: fs,
                    color: if open {
                        style.label_hot_text
                    } else {
                        style.label_text
                    },
                },
            );
            assert(cmds(ops@) =~= bar_title_ops(*self, *style, bar_x, bar_y, bar_h, i as int));
            proof {
                lemma_cmds_add(out@, ops@);
            }
            out.append(&mut ops);
            cursor = cursor + w;
            i = i + 1;
        }
        out
    }

    /// What drawing the open drop-down asks the renderer to draw, for a bar
    /// at `(bar_x, bar_y)` that is `bar_h` tall, given the measured width of
    /// each entry's shortcut (`shortcut_widths[k]` for entry `k`).
    #[verifier::rlimit(50)]
    pub fn draw_dropdown(
        &self,
        bar_x: i32,
        bar_y: i32,
        bar_h: u32,
        style: &MenuStyle,
        shortcut_widths: &Vec<u32>,
    ) -> (r: Vec<DrawOp>)
        requires
            dropdown_draw_fits(*self, *style, bar_x, bar_y, bar_h, shortcut_widths@),
        ensures
            cmds(r@) == dropdown_ops(*self, *style, bar_x, bar_y, bar_h, shortcut_widths@),
    {
        let mut out: Vec<DrawOp> = Vec::new();
        let idx = match self.open {
            Some(i) => i,
            None => {
                assert(cmds(out@) =~= Seq::<DrawCmd>::empty());
                return out;
            },
        };
        let menu = &self.menus[idx];
        let ghost es = menu.entries@;
        let ghost hs = entry_heights(es);
        proof {
            lemma_heights_nonneg(es);
            crate::sums::lemma_sum_nonneg(hs);
            lemma_sum_prefix_bounds(hs, 0);
            assert(dropdown_y(bar_y, bar_h) + dropdown_height_spec(es) <= i32::MAX);
        }
        let (label_x, _label_w) = self.label_range(idx);
        let dd_x = bar_x + label_x;
        let dd_y = bar_y + crate::layout::to_i32(bar_h);
        let dd_w = Self::dropdown_width(menu);
        let dd_h = Self::dropdown_height(menu);
        let ghost dx = dropdown_x(self.menus@, idx as int, bar_x);
        let ghost dy = dropdown_y(bar_y, bar_h);
        let ghost dw = dropdown_width_spec(es);
        assert(dd_x == dx);
        assert(dd_y == dy);
        out.push(DrawOp::FillRect { x: dd_x, y: dd_y, w: dd_w, h: dd_h, color: style.dropdown_bg });
        out.push(DrawOp::FillRect { x: dd_x, y: dd_y, w: dd_w, h: 1, color: style.dropdown_border_light });
        out.push(DrawOp::FillRect { x: dd_x, y: dd_y, w: 1, h: dd_h, color: style.dropdown_border_light });
        out.push(
            DrawOp::FillRect {
                x: dd_x,
                y: dd_y + dd_h as i32 - 1,
                w: dd_w,
                h: 1,
                color: style.dropdown_border_dark,
            },
        );
        out.push(
            DrawOp::FillRect {
                x: dd_x + dd_w as i32 - 1,
                y: dd_y,
                w: 1,
                h: dd_h,
                color: style.dropdown_border_dark,
            },
        );
        assert(cmds(out@) =~= bezel_ops(*style, dx, dy, dw, dropdown_height_spec(es)));
        let fs = style.font_size;
        let d: i32 = ITEM_H - fs as i32;
        let off: i32 = if d >= 0 {
            d / 2
        } else {
            -((-d) / 2)
        };
        assert(off == trunc_div(20 - style.font_size, 2));
        let mut item_y: i32 = dd_y + 4;
        let n = menu.entries.len();
        let mut k: usize = 0;
        while k < n
            invariant
                n == es.len(),
                es == self.menus@[idx as int].entries@,
                es == menu.entries@,
                self.open == Some(idx),
                dropdown_draw_fits(*self, *style, bar_x, bar_y, bar_h, shortcut_widths@),
                hs == entry_heights(es),
                all_nonneg(hs),
                k <= n,
                dd_x == dx,
                dd_y == dy,
                dd_w == dw,
                dx == dropdown_x(self.menus@, idx as int, bar_x),
                dy == dropdown_y(bar_y, bar_h),
                dw == dropdown_width_spec(es),
                dw >= 120,
                fs == style.font_size,
                off == trunc_div(20 - style.font_size, 2),
                -32768 <= off <= 10,
                item_y == dy + entry_top(es, k as int),
                cmds(out@) == bezel_ops(*style, dx, dy, dw, dropdown_height_spec(es))
                    + dropdown_entries_ops(*self, *style, es, dx, dy, dw, shortcut_widths@, k as nat),
            decreases n - k,
        {
            proof {
                lemma_sum_take_step(hs, k as int);
                lemma_sum_prefix_bounds(hs, k as int + 1);
                lemma_sum_prefix_bounds(hs, k as int);
            }
            let mut ops: Vec<DrawOp> = Vec::new();
            match &menu.entries[k] {
                MenuEntry::Action { label, shortcut, enabled, .. } => {
                    let hot = match self.hovered_item {
                        Some(h) => h == k && *enabled,
                        None => false,
                    };
                    if hot {
                        ops.push(
                            DrawOp::FillRect {
                                x: dd_x + 2,
                                y: item_y,
                                w: dd_w - 4,
                                h: ITEM_H as u32,
                                color: style.item_hot_bg,
                            },
                        );
                    }
                    let text_color = if !*enabled {
                        style.item_disabled_text
                    } else if hot {
                        style.item_hot_text
                    } else {
                        style.item_text
                    };
                    let text_y = item_y + off;
                    ops.push(
                        DrawOp::Text {
                            text: label.clone(),
                            x: dd_x + ITEM_PAD_X,
                            y: text_y,
                            font_size: fs,
                            color: text_color,
                        },
                    );
                    match shortcut {
                        Some(sc) => {
                            let sc_w = shortcut_widths[k] as i32;
                            ops.push(
                                DrawOp::Text {
                                    text: sc.clone(),
                                    x: dd_x + dd_w as i32 - sc_w - ITEM_PAD_X,
                                    y: text_y,
                                    font_size: fs,
                                    color: text_color,
                                },
                            );
                        },
                        None => {},
                    }
                    item_y = item_y + ITEM_H;
                },
                MenuEntry::Separator => {
                    ops.push(
                        DrawOp::FillRect {
                            x: dd_x + 4,
                            y: item_y + SEPARATOR_H / 2,
                            w: dd_w - 8,
                            h: 1,
                            color: style.separator,
                        },
                    );
                    item_y = item_y + SEPARATOR_H;
                },
            }
            assert(cmds(ops@) =~= dropdown_entry_ops(*self, *style, es, dx, dy, dw, shortcut_widths@, k as int));
            proof {
                lemma_cmds_add(out@, ops@);
            }
            out.append(&mut ops);
            k = k + 1;
        }
        out
    }

    /// What a click at `(x, y)` hits, for a bar at `(bar_x, bar_y)` of size
    /// `bar_w` by `bar_h`: a title on the bar, an item of the open menu (its
    /// id when enabled, `NoOp` otherwise), or `Outside`.
    pub fn hit_test(&self, x: i32, y: i32, bar_x: i32, bar_y: i32, bar_w: u32, bar_h: u32) -> (r:
        MenuHit)
        requires
            labels_fit(self.menus@),
            y >= bar_y ==> bar_y + as_i32(bar_h) <= i32::MAX && bar_y + as_i32(bar_h) >= i32::MIN,
            y >= bar_y && y < bar_y + as_i32(bar_h) && x >= bar_x ==> bar_x + as_i32(bar_w)
                <= i32::MAX && bar_x + as_i32(bar_w) >= i32::MIN,
            !on_bar(x, y, bar_x, bar_y, bar_w, bar_h) ==> match self.open {
                Some(idx) => dropdown_fits(self.menus@, idx as int, x, y, bar_x, bar_y, bar_h),
                None => true,
            },
        ensures
            r == hit_spec(self.menus@, self.open, x, y, bar_x, bar_y, bar_w, bar_h),
    {
        if y >= bar_y && y < bar_y + crate::layout::to_i32(bar_h) && x >= bar_x && x < bar_x
            + crate::layout::to_i32(bar_w) {
            let rel_x = x - bar_x;
            return match self.label_at(rel_x) {
                Some(i) => MenuHit::Label(i),
                None => MenuHit::Outside,
            };
        }
        match self.open {
            Some(idx) => self.dropdown_hit(idx, x, y, bar_x, bar_y, bar_h),
            None => MenuHit::Outside,
        }
    }

    /// Track the entry under the pointer in the open menu (none when the
    /// pointer is outside the drop-down or on no action).
    pub fn pointer_move(&mut self, x: i32, y: i32, bar_x: i32, bar_y: i32, bar_h: u32)
        requires
            match old(self).open {
                Some(idx) => dropdown_fits(old(self).menus@, idx as int, x, y, bar_x, bar_y, bar_h),
                None => true,
            },
        ensures
            final(self).menus@ == old(self).menus@,
            final(self).open == old(self).open,
            final(self).hovered_item == match old(self).open {
                Some(idx) => hover_spec(old(self).menus@, idx as int, x, y, bar_x, bar_y, bar_h),
                None => None,
            },
    {
        self.hovered_item = None;
        let idx = match self.open {
            Some(i) => i,
            None => {
                return;
            },
        };
        let menu = &self.menus[idx];
        let (label_x, _) = self.label_range(idx);
        let dd_x = bar_x + label_x;
        let dd_y = bar_y + crate::layout::to_i32(bar_h);
        let dd_w = Self::dropdown_width(menu) as i32;
        let dd_h = Self::dropdown_height(menu) as i32;
        if x < dd_x || x >= dd_x + dd_w || y < dd_y || y >= dd_y + dd_h {
            return;
        }
        let found = Self::action_row_at(menu, dd_y, y);
        self.hovered_item = found;
    }
}

/// Colors and font size of a menu bar and its dropdowns.
#[derive(Debug, Clone, Copy)]
pub struct MenuStyle {
    /// Bar background.
    pub bar_bg: Color,
    /// Line under the bar.
    pub bar_border: Color,
    /// Title text.
    pub label_text: Color,
    /// Background of the open or hovered title.
    pub label_hot_bg: Color,
    /// Text of the open or hovered title.
    pub label_hot_text: Color,
    /// Dropdown background.
    pub dropdown_bg: Color,
    /// Light edge of the dropdown bezel.
    pub dropdown_border_light: Color,
    /// Dark edge of the dropdown bezel.
    pub dropdown_border_dark: Color,
    /// Entry text.
    pub item_text: Color,
    /// Background of the hovered entry.
    pub item_hot_bg: Color,
    /// Text of the hovered entry.
    pub item_hot_text: Color,
    /// Text of a disabled entry.
    pub item_disabled_text: Color,
    /// Separator line.
    pub separator: Color,
    /// Font size.
    pub font_size: u16,
}

impl Default for MenuStyle {
    /// The classic grey bezel look with blue highlights, at font size 11.
    fn default() -> (r: Self)
        ensures
            r.bar_bg == (Color { r: 240, g: 240, b: 240, a: 255 }),
            r.bar_border == (Color { r: 180, g: 180, b: 180, a: 255 }),
            r.label_text == (Color { r: 30, g: 30, b: 30, a: 255 }),
            r.label_hot_bg == (Color { r: 49, g: 106, b: 197, a: 255 }),
            r.label_hot_text == (Color { r: 255, g: 255, b: 255, a: 255 }),
            r.dropdown_bg == (Color { r: 236, g: 236, b: 236, a: 255 }),
            r.dropdown_border_light == (Color { r: 255, g: 255, b: 255, a: 255 }),
            r.dropdown_border_dark == (Color { r: 105, g: 105, b: 105, a: 255 }),
            r.item_text == (Color { r: 20, g: 20, b: 20, a: 255 }),
            r.item_hot_bg == (Color { r: 49, g: 106, b: 197, a: 255 }),
            r.item_hot_text == (Color { r: 255, g: 255, b: 255, a: 255 }),
            r.item_disabled_text == (Color { r: 150, g: 150, b: 150, a: 255 }),
            r.separator == (Color { r: 170, g: 170, b: 170, a: 255 }),
            r.font_size == 11,
    {
        MenuStyle {
            bar_bg: Color::rgb(240, 240, 240),
            bar_border: Color::rgb(180, 180, 180),
            label_text: Color::rgb(30, 30, 30),
            label_hot_bg: Color::rgb(49, 106, 197),
            label_hot_text: Color::rgb(255, 255, 255),
            dropdown_bg: Color::rgb(236, 236, 236),
            dropdown_border_light: Color::rgb(255, 255, 255),
            dropdown_border_dark: Color::rgb(105, 105, 105),
            item_text: Color::rgb(20, 20, 20),
            item_hot_bg: Color::rgb(49, 106, 197),
            item_hot_text: Color::rgb(255, 255, 255),
            item_disabled_text: Color::rgb(150, 150, 150),
            separator: Color::rgb(170, 170, 170),
            font_size: 11,
        }
    }
}

} // verus!
