//! Context menu widget: popup with actions, separators, and submenus.
use crate::cyclic::{cyc_back, cyc_fwd, lemma_least_in_is, lemma_least_in_none, least_in};
use crate::draw::{cmds, lemma_cmds_add, DrawCmd, DrawOp, ShadowKind};
use crate::layout::{center, center_in_range, center_spec, sat_sub};
use crate::text::push_char;
use crate::theme::Theme;
use vstd::prelude::*;

verus! {

/// A single entry in a context menu.
#[derive(Debug)]
pub enum MenuItem {
    /// A clickable action.
    Action {
        /// Display label for this action.
        label: String,
        /// Whether this action is currently enabled.
        enabled: bool,
    },
    /// A horizontal separator line between groups.
    Separator,
    /// A nested submenu.
    Submenu {
        /// Display label for this submenu.
        label: String,
        /// Child items shown when the submenu is opened.
        items: Vec<MenuItem>,
    },
}

/// Whether an item can be selected: enabled actions and submenus.
pub open spec fn selectable(item: MenuItem) -> bool {
    match item {
        MenuItem::Action { enabled, .. } => enabled,
        MenuItem::Separator => false,
        MenuItem::Submenu { .. } => true,
    }
}

/// Whether an item is an action (enabled or not).
pub open spec fn is_action(item: MenuItem) -> bool {
    item is Action
}

/// Number of action items among the first `n` items.
pub open spec fn actions_before(items: Seq<MenuItem>, n: int) -> nat
    decreases n,
{
    if n <= 0 {
        0
    } else {
        actions_before(items, n - 1) + if is_action(items[n - 1]) {
            1nat
        } else {
            0nat
        }
    }
}

/// The action items of a list, in order.
pub open spec fn action_items(items: Seq<MenuItem>) -> Seq<MenuItem> {
    items.filter(|m: MenuItem| m is Action)
}

/// The index `activate` reports for the item at `idx` counts the action
/// items before it and nothing else: it is the number of actions among the
/// first `idx` items.
pub proof fn lemma_actions_before_counts_actions(items: Seq<MenuItem>, n: int)
    requires
        0 <= n <= items.len(),
    ensures
        actions_before(items, n) == action_items(items.take(n)).len(),
    decreases n,
{
    reveal(Seq::filter);
    if n > 0 {
        lemma_actions_before_counts_actions(items, n - 1);
        assert(items.take(n).drop_last() =~= items.take(n - 1));
        assert(items.take(n).last() == items[n - 1]);
    } else {
        assert(items.take(0) =~= Seq::<MenuItem>::empty());
    }
}

/// Activating the action at `idx` reports its position among the action
/// items alone: the reported index is below the number of actions, and the
/// action at that position of the list of actions is the one at `idx`.
pub proof fn lemma_activated_action_position(items: Seq<MenuItem>, idx: int)
    requires
        0 <= idx < items.len(),
        items[idx] is Action,
    ensures
        actions_before(items, idx) < action_items(items).len(),
        action_items(items)[actions_before(items, idx) as int] == items[idx],
{
    let p = |m: MenuItem| m is Action;
    lemma_actions_before_counts_actions(items, idx);
    let front = items.take(idx);
    let back = items.skip(idx + 1);
    assert(items =~= front + seq![items[idx]] + back);
    Seq::filter_distributes_over_add(front + seq![items[idx]], back, p);
    Seq::filter_distributes_over_add(front, seq![items[idx]], p);
    reveal_with_fuel(Seq::filter, 2);
    assert(seq![items[idx]].drop_last() =~= Seq::<MenuItem>::empty());
    assert(seq![items[idx]].filter(p) =~= seq![items[idx]]);
}

impl MenuItem {
    /// Create an enabled action item.
    pub fn action(label: &str) -> (r: Self)
        ensures
            r matches MenuItem::Action { label: l, enabled } && l@ == label@ && enabled,
    {
        MenuItem::Action { label: label.to_string(), enabled: true }
    }

    /// Create a disabled action item.
    pub fn action_disabled(label: &str) -> (r: Self)
        ensures
            r matches MenuItem::Action { label: l, enabled } && l@ == label@ && !enabled,
    {
        MenuItem::Action { label: label.to_string(), enabled: false }
    }

    /// Create a separator.
    pub fn separator() -> (r: Self)
        ensures
            r is Separator,
    {
        MenuItem::Separator
    }

    /// Create a submenu.
    pub fn submenu(label: &str, items: Vec<MenuItem>) -> (r: Self)
        ensures
            r matches MenuItem::Submenu { label: l, items: its } && l@ == label@ && its == items,
    {
        MenuItem::Submenu { label: label.to_string(), items }
    }

    /// Whether this item is selectable (not a separator, and enabled if action).
    pub fn is_selectable(&self) -> (r: bool)
        ensures
            r == selectable(*self),
    {
        match self {
            MenuItem::Action { enabled, .. } => *enabled,
            MenuItem::Separator => false,
            MenuItem::Submenu { .. } => true,
        }
    }
}

/// Horizontal padding inside the menu panel.
pub const PAD_H: u32 = 6;
/// Vertical padding above the first item and below the last.
pub const PAD_V: u32 = 4;
/// Height of a separator line.
pub const SEPARATOR_HEIGHT: u32 = 7;
/// Narrowest menu panel.
pub const MIN_WIDTH: u32 = 40;

/// A popup context menu that renders a list of `MenuItem`s at a screen position.
pub struct ContextMenu {
    /// Items to display in the menu.
    pub items: Vec<MenuItem>,
    /// Screen X position of the menu's top-left corner.
    pub x: i32,
    /// Screen Y position of the menu's top-left corner.
    pub y: i32,
    /// Whether the menu is currently shown.
    pub visible: bool,
    /// Index of the currently highlighted item, if any.
    pub selected_index: Option<usize>,
    /// Index of the currently open submenu, if any.
    pub open_submenu: Option<usize>,
}

/// The forward search from `start` finds a selectable item after `k` steps.
pub open spec fn fwd_hit(items: Seq<MenuItem>, start: int) -> spec_fn(int) -> bool {
    |k: int| selectable(items[cyc_fwd(start, k, items.len() as int)])
}

/// The backward search from `start` finds a selectable item after `k` steps.
pub open spec fn back_hit(items: Seq<MenuItem>, start: int) -> spec_fn(int) -> bool {
    |k: int| selectable(items[cyc_back(start, k, items.len() as int)])
}

/// First selectable item at or after `start` (wrapping), or `start` when
/// nothing is selectable.
pub open spec fn find_forward_spec(items: Seq<MenuItem>, start: int) -> int {
    match least_in(fwd_hit(items, start), 0, items.len() - 1) {
        Some(k) => cyc_fwd(start, k, items.len() as int),
        None => start,
    }
}

/// First selectable item at or before `start` (wrapping), or `start` when
/// nothing is selectable.
pub open spec fn find_backward_spec(items: Seq<MenuItem>, start: int) -> int {
    match least_in(back_hit(items, start), 0, items.len() - 1) {
        Some(k) => cyc_back(start, k, items.len() as int),
        None => start,
    }
}

/// Widest label among the first `n` items (separators count as 0).
pub open spec fn max_label_width(items: Seq<MenuItem>, widths: Seq<u32>, n: int) -> int
    decreases n,
{
    if n <= 0 {
        0
    } else {
        let prev = max_label_width(items, widths, n - 1);
        let w = if items[n - 1] is Separator {
            0
        } else {
            widths[n - 1] as int
        };
        if w > prev {
            w
        } else {
            prev
        }
    }
}

/// Total row height of the first `n` items.
pub open spec fn rows_height(items: Seq<MenuItem>, row_h: int, n: int) -> int
    decreases n,
{
    if n <= 0 {
        0
    } else {
        rows_height(items, row_h, n - 1) + if items[n - 1] is Separator {
            SEPARATOR_HEIGHT as int
        } else {
            row_h
        }
    }
}

/// Some item is a submenu.
pub open spec fn has_submenu(items: Seq<MenuItem>) -> bool {
    exists|i: int| 0 <= i < items.len() && (#[trigger] items[i]) is Submenu
}

/// The menu panel's `(width, height)` for the given text metrics: the widest
/// label plus padding (and room for the submenu arrow), at least
/// `MIN_WIDTH`; the rows plus vertical padding.
pub open spec fn menu_size(items: Seq<MenuItem>, widths: Seq<u32>, arrow_w: u32, text_h: u32) -> (int, int) {
    let arrow = if has_submenu(items) {
        arrow_w + PAD_H
    } else {
        0
    };
    let w = max_label_width(items, widths, items.len() as int) + PAD_H * 2 + arrow;
    let h = rows_height(items, text_h + 6, items.len() as int) + PAD_V * 2;
    (if w > MIN_WIDTH {
        w
    } else {
        MIN_WIDTH as int
    }, h)
}

/// The arrow drawn at the right of a submenu row.
pub open spec fn submenu_arrow() -> Seq<char> {
    seq!['\u{25B6}']
}

/// Top edge of item `i` in a menu panel whose top edge is `y`.
pub open spec fn item_top(items: Seq<MenuItem>, y: i32, text_h: u32, i: int) -> int {
    y + PAD_V + rows_height(items, text_h + 6, i)
}

/// What item `i` of a menu panel at `(x, y)` of width `w` draws: the
/// highlight under the selected row, the label cut to the panel, and the
/// arrow of a submenu; a separator is a line across the panel.
pub open spec fn menu_item_ops(
    menu: ContextMenu,
    theme: Theme,
    x: i32,
    y: i32,
    w: u32,
    text_h: u32,
    arrow_w: u32,
    i: int,
) -> Seq<DrawCmd> {
    let row_h = text_h + 6;
    let cy = item_top(menu.items@, y, text_h, i);
    let ty = cy + center_spec(row_h as u32, text_h);
    let highlight = if menu.selected_index == Some(i as usize) {
        seq![
            DrawCmd::FillRect {
                x: (x + 1) as i32,
                y: cy as i32,
                w: sat_sub(w as int, 2) as u32,
                h: row_h as u32,
                color: theme.accent_subtle,
            },
        ]
    } else {
        Seq::empty()
    };
    match menu.items@[i] {
        MenuItem::Action { label, enabled } => highlight + seq![
            DrawCmd::TextEllipsis {
                text: label@,
                x: (x + PAD_H) as i32,
                y: ty as i32,
                font_size: theme.font_size_md,
                color: if enabled {
                    theme.text_primary
                } else {
                    theme.text_disabled
                },
                max_w: sat_sub(w as int, 2 * PAD_H) as u32,
            },
        ],
        MenuItem::Separator => seq![
            DrawCmd::Line {
                x1: (x + PAD_H) as i32,
                y1: (cy + SEPARATOR_HEIGHT / 2) as i32,
                x2: (x + w - PAD_H) as i32,
                y2: (cy + SEPARATOR_HEIGHT / 2) as i32,
                width: 1,
                color: theme.border_subtle,
            },
        ],
        MenuItem::Submenu { label, .. } => highlight + seq![
            DrawCmd::TextEllipsis {
                text: label@,
                x: (x + PAD_H) as i32,
                y: ty as i32,
                font_size: theme.font_size_md,
                color: theme.text_primary,
                max_w: sat_sub(w as int, 3 * PAD_H) as u32,
            },
            DrawCmd::Text {
                text: submenu_arrow(),
                x: (x + w - arrow_w - PAD_H) as i32,
                y: ty as i32,
                font_size: theme.font_size_md,
                color: theme.text_secondary,
            },
        ],
    }
}

/// The operations of the first `k` items.
pub open spec fn menu_items_ops(
    menu: ContextMenu,
    theme: Theme,
    x: i32,
    y: i32,
    w: u32,
    text_h: u32,
    arrow_w: u32,
    k: nat,
) -> Seq<DrawCmd>
    decreases k,
{
    if k == 0 {
        Seq::empty()
    } else {
        menu_items_ops(menu, theme, x, y, w, text_h, arrow_w, (k - 1) as nat) + menu_item_ops(
            menu,
            theme,
            x,
            y,
            w,
            text_h,
            arrow_w,
            k - 1,
        )
    }
}

/// Everything a context menu draws in the panel `(x, y, w, h)`: nothing
/// while hidden; otherwise the shadow, the surface and its border, then
/// each item in order.
pub open spec fn context_menu_ops(
    menu: ContextMenu,
    theme: Theme,
    x: i32,
    y: i32,
    w: u32,
    h: u32,
    text_h: u32,
    arrow_w: u32,
) -> Seq<DrawCmd> {
    if !menu.visible {
        Seq::empty()
    } else {
        let r = theme.border_radius_md;
        seq![
            DrawCmd::Shadow { x, y, w, h, radius: r, kind: ShadowKind::Dropdown },
            DrawCmd::FillRoundedRect { x, y, w, h, radius: r, color: theme.surface },
            DrawCmd::StrokeRoundedRect { x, y, w, h, radius: r, width: 1, color: theme.border_subtle },
        ] + menu_items_ops(menu, theme, x, y, w, text_h, arrow_w, menu.items@.len())
    }
}

/// Whether drawing the menu panel at `(x, y)` of width `w` stays inside
/// `i32` arithmetic.
pub open spec fn menu_draw_fits(menu: ContextMenu, x: i32, y: i32, w: u32, text_h: u32, arrow_w: u32) -> bool {
    &&& text_h + 6 <= i32::MAX
    &&& w <= i32::MAX
    &&& arrow_w <= i32::MAX
    &&& x + w <= i32::MAX
    &&& x + PAD_H <= i32::MAX
    &&& x - arrow_w - PAD_H >= i32::MIN
    &&& item_top(menu.items@, y, text_h, menu.items@.len() as int) <= i32::MAX
}

impl ContextMenu {
    /// Create a new context menu with the given items, initially hidden.
    pub fn new(items: Vec<MenuItem>) -> (r: Self)
        ensures
            r.items == items,
            r.x == 0,
            r.y == 0,
            !r.visible,
            r.selected_index is None,
            r.open_submenu is None,
    {
        ContextMenu { items, x: 0, y: 0, visible: false, selected_index: None, open_submenu: None }
    }

    /// Show the menu at the given screen position.
    pub fn show(&mut self, x: i32, y: i32)
        ensures
            final(self).items == old(self).items,
            final(self).x == x,
            final(self).y == y,
            final(self).visible,
            final(self).selected_index is None,
            final(self).open_submenu is None,
    {
        self.x = x;
        self.y = y;
        self.visible = true;
        self.selected_index = None;
        self.open_submenu = None;
    }

    /// Hide the menu and reset selection state.
    pub fn hide_menu(&mut self)
        ensures
            final(self).items == old(self).items,
            final(self).x == old(self).x,
            final(self).y == old(self).y,
            !final(self).visible,
            final(self).selected_index is None,
            final(self).open_submenu is None,
    {
        self.visible = false;
        self.selected_index = None;
        self.open_submenu = None;
    }

    /// Whether the menu is currently visible.
    pub fn is_visible(&self) -> (r: bool)
        ensures
            r == self.visible,
    {
        self.visible
    }

    /// Return the currently selected item, if any.
    pub fn selected_item(&self) -> (r: Option<&MenuItem>)
        ensures
            r == (match self.selected_index {
                Some(i) => if i < self.items@.len() {
                    Some(&self.items@[i as int])
                } else {
                    None
                },
                None => None,
            }),
    {
        match self.selected_index {
            Some(i) => if i < self.items.len() {
                Some(&self.items[i])
            } else {
                None
            },
            None => None,
        }
    }

    /// Where `navigate_up` starts its search.
    pub open spec fn up_start(&self) -> int {
        match self.selected_index {
            Some(i) => if i == 0 {
                self.items@.len() - 1
            } else {
                i - 1
            },
            None => self.items@.len() - 1,
        }
    }

    /// Where `navigate_down` starts its search.
    pub open spec fn down_start(&self) -> int {
        match self.selected_index {
            Some(i) => (i + 1) % (self.items@.len() as int),
            None => 0,
        }
    }

    /// Move the selection to the previous selectable item, wrapping around.
    pub fn navigate_up(&mut self)
        requires
            old(self).items@.len() > 0 ==> old(self).up_start() + old(self).items@.len() <= usize::MAX,
        ensures
            final(self).items == old(self).items,
            final(self).x == old(self).x,
            final(self).y == old(self).y,
            final(self).visible == old(self).visible,
            final(self).open_submenu == old(self).open_submenu,
            final(self).selected_index == (if old(self).items@.len() == 0 {
                old(self).selected_index
            } else {
                Some(find_backward_spec(old(self).items@, old(self).up_start()) as usize)
            }),
    {
        if self.items.len() == 0 {
            return;
        }
        let start = match self.selected_index {
            Some(i) => if i == 0 {
                self.items.len() - 1
            } else {
                i - 1
            },
            None => self.items.len() - 1,
        };
        self.selected_index = Some(self.find_selectable_backward(start));
    }

    /// Move the selection to the next selectable item, wrapping around.
    pub fn navigate_down(&mut self)
        requires
            old(self).selected_index matches Some(i) ==> i < usize::MAX,
            old(self).items@.len() <= isize::MAX,
        ensures
            final(self).items == old(self).items,
            final(self).x == old(self).x,
            final(self).y == old(self).y,
            final(self).visible == old(self).visible,
            final(self).open_submenu == old(self).open_submenu,
            final(self).selected_index == (if old(self).items@.len() == 0 {
                old(self).selected_index
            } else {
                Some(find_forward_spec(old(self).items@, old(self).down_start()) as usize)
            }),
    {
        if self.items.len() == 0 {
            return;
        }
        let start = match self.selected_index {
            None => 0,
            Some(i) => (i + 1) % self.items.len(),
        };
        self.selected_index = Some(self.find_selectable_forward(start));
    }

    /// Activate the currently selected item.
    ///
    /// Returns `Some(flat_action_index)` if an enabled `Action` was activated,
    /// where the index counts only `Action` items (skipping separators and
    /// submenus). Returns `None` if nothing is selected, the selected item is
    /// disabled, or it is a separator.
    ///
    /// If the selected item is a `Submenu`, the submenu is toggled open and
    /// `None` is returned.
    pub fn activate(&mut self) -> (r: Option<usize>)
        ensures
            final(self).items == old(self).items,
            final(self).x == old(self).x,
            final(self).y == old(self).y,
            final(self).visible == old(self).visible,
            final(self).selected_index == old(self).selected_index,
            match old(self).selected_index {
                Some(idx) if idx < old(self).items@.len() => match old(self).items@[idx as int] {
                    MenuItem::Action { enabled, .. } => {
                        &&& final(self).open_submenu == old(self).open_submenu
                        &&& r == (if enabled {
                            Some(actions_before(old(self).items@, idx as int) as usize)
                        } else {
                            None
                        })
                    },
                    MenuItem::Separator => {
                        &&& final(self).open_submenu == old(self).open_submenu
                        &&& r is None
                    },
                    MenuItem::Submenu { .. } => {
                        &&& r is None
                        &&& final(self).open_submenu == (if old(self).open_submenu == Some(idx) {
                            None
                        } else {
                            Some(idx)
                        })
                    },
                },
                _ => {
                    &&& final(self).open_submenu == old(self).open_submenu
                    &&& r is None
                },
            },
    {
        let idx = match self.selected_index {
            Some(i) => i,
            None => return None,
        };
        if idx >= self.items.len() {
            return None;
        }
        let enabled_action = match &self.items[idx] {
            MenuItem::Action { enabled, .. } => Some(*enabled),
            MenuItem::Separator => None,
            MenuItem::Submenu { .. } => {
                self.open_submenu = if self.open_submenu == Some(idx) {
                    None
                } else {
                    Some(idx)
                };
                return None;
            },
        };
        match enabled_action {
            Some(true) => {
                let mut count: usize = 0;
                let mut i: usize = 0;
                while i < idx
                    invariant
                        idx < self.items@.len(),
                        i <= idx,
                        count == actions_before(self.items@, i as int),
                        count <= i,
                    decreases idx - i,
                {
                    match &self.items[i] {
                        MenuItem::Action { .. } => {
                            count = count + 1;
                        },
                        _ => {},
                    }
                    i = i + 1;
                }
                Some(count)
            },
            _ => None,
        }
    }

    /// Height of a single non-separator row for text of height `text_h`.
    pub fn row_height(&self, text_h: u32) -> (r: u32)
        requires
            text_h + 6 <= u32::MAX,
        ensures
            r == text_h + 6,
    {
        text_h + 6
    }

    /// Compute the width and total height of the menu panel, given the
    /// measured width of each item's label (`label_widths[i]` for item `i`),
    /// the measured width of the submenu arrow, and the text height.
    pub fn compute_size(&self, label_widths: &Vec<u32>, arrow_w: u32, text_h: u32) -> (r: (u32, u32))
        requires
            label_widths@.len() == self.items@.len(),
            text_h + 6 <= u32::MAX,
            arrow_w + PAD_H <= u32::MAX,
            menu_size(self.items@, label_widths@, arrow_w, text_h).0 <= u32::MAX,
            rows_height(self.items@, text_h + 6, self.items@.len() as int) + PAD_V * 2 <= u32::MAX,
        ensures
            r.0 == menu_size(self.items@, label_widths@, arrow_w, text_h).0,
            r.1 == menu_size(self.items@, label_widths@, arrow_w, text_h).1,
    {
        let row_h = self.row_height(text_h);
        let n = self.items.len();
        let ghost items = self.items@;
        let ghost widths = label_widths@;
        let mut max_label: u32 = 0;
        let mut any_submenu = false;
        let mut h: u32 = 0;
        let mut i: usize = 0;
        proof {
            lemma_rows_mono(items, row_h as int, 0, n as int);
        }
        while i < n
            invariant
                n == items.len(),
                items == self.items@,
                widths == label_widths@,
                widths.len() == n,
                i <= n,
                max_label == max_label_width(items, widths, i as int),
                h == rows_height(items, row_h as int, i as int),
                row_h == text_h + 6,
                rows_height(items, row_h as int, n as int) + PAD_V * 2 <= u32::MAX,
                any_submenu == exists|k: int| 0 <= k < i && (#[trigger] items[k]) is Submenu,
            decreases n - i,
        {
            proof {
                lemma_rows_mono(items, row_h as int, (i + 1) as int, n as int);
            }
            match &self.items[i] {
                MenuItem::Separator => {
                    h = h + SEPARATOR_HEIGHT;
                },
                MenuItem::Action { .. } => {
                    if label_widths[i] > max_label {
                        max_label = label_widths[i];
                    }
                    h = h + row_h;
                },
                MenuItem::Submenu { .. } => {
                    if label_widths[i] > max_label {
                        max_label = label_widths[i];
                    }
                    h = h + row_h;
                    any_submenu = true;
                },
            }
            proof {
                assert(any_submenu == exists|k: int| 0 <= k < i + 1 && (#[trigger] items[k]) is Submenu) by {
                    if items[i as int] is Submenu {
                        assert(items[i as int] is Submenu);
                    }
                }
            }
            i = i + 1;
        }
        let arrow = if any_submenu {
            arrow_w + PAD_H
        } else {
            0
        };
        proof {
            lemma_max_label_nonneg(items, widths, n as int);
        }
        let w = max_label as u64 + (PAD_H * 2) as u64 + arrow as u64;
        let w = if w > MIN_WIDTH as u64 {
            w as u32
        } else {
            MIN_WIDTH
        };
        (w, h + PAD_V * 2)
    }

    /// What drawing the menu in the panel `(x, y, w, h)` asks the renderer
    /// to draw, given the text height and the width of the submenu arrow.
    pub fn draw(
        &self,
        theme: &Theme,
        x: i32,
        y: i32,
        w: u32,
        h: u32,
        text_h: u32,
        arrow_w: u32,
    ) -> (r: Vec<DrawOp>)
        requires
            self.visible ==> menu_draw_fits(*self, x, y, w, text_h, arrow_w),
        ensures
            cmds(r@) == context_menu_ops(*self, *theme, x, y, w, h, text_h, arrow_w),
            !self.visible ==> r@.len() == 0,
    {
        let mut out: Vec<DrawOp> = Vec::new();
        if !self.visible {
            assert(cmds(out@) =~= Seq::<DrawCmd>::empty());
            return out;
        }
        let radius = theme.border_radius_md;
        let fs = theme.font_size_md;
        let row_h = self.row_height(text_h);
        assert(center_in_range(row_h, text_h));
        let ty = center(row_h, text_h);
        assert(0 <= ty <= row_h);
        out.push(DrawOp::Shadow { x, y, w, h, radius, kind: ShadowKind::Dropdown });
        out.push(DrawOp::FillRoundedRect { x, y, w, h, radius, color: theme.surface });
        out.push(
            DrawOp::StrokeRoundedRect { x, y, w, h, radius, width: 1, color: theme.border_subtle },
        );
        let ghost items = self.items@;
        let n = self.items.len();
        proof {
            lemma_rows_mono(items, row_h as int, 0, n as int);
        }
        let mut cy: i32 = y + PAD_V as i32;
        let mut i: usize = 0;
        while i < n
            invariant
                n == items.len(),
                items == self.items@,
                self.visible,
                i <= n,
                menu_draw_fits(*self, x, y, w, text_h, arrow_w),
                row_h == text_h + 6,
                ty == center_spec(row_h, text_h),
                0 <= ty <= row_h,
                fs == theme.font_size_md,
                cy == item_top(items, y, text_h, i as int),
                cmds(out@) == seq![
                    DrawCmd::Shadow { x, y, w, h, radius: theme.border_radius_md, kind: ShadowKind::Dropdown },
                    DrawCmd::FillRoundedRect {
                        x,
                        y,
                        w,
                        h,
                        radius: theme.border_radius_md,
                        color: theme.surface,
                    },
                    DrawCmd::StrokeRoundedRect {
                        x,
                        y,
                        w,
                        h,
                        radius: theme.border_radius_md,
                        width: 1,
                        color: theme.border_subtle,
                    },
                ] + menu_items_ops(*self, *theme, x, y, w, text_h, arrow_w, i as nat),
            decreases n - i,
        {
            proof {
                lemma_rows_mono(items, row_h as int, (i + 1) as int, n as int);
                lemma_rows_mono(items, row_h as int, 0, i as int);
            }
            let mut ops: Vec<DrawOp> = Vec::new();
            let selected = match self.selected_index {
                Some(s) => s == i,
                None => false,
            };
            match &self.items[i] {
                MenuItem::Action { label, enabled } => {
                    if selected {
                        ops.push(
                            DrawOp::FillRect {
                                x: x + 1,
                                y: cy,
                                w: if w >= 2 {
                                    w - 2
                                } else {
                                    0
                                },
                                h: row_h,
                                color: theme.accent_subtle,
                            },
                        );
                    }
                    let color = if *enabled {
                        theme.text_primary
                    } else {
                        theme.text_disabled
                    };
                    ops.push(
                        DrawOp::TextEllipsis {
                            text: label.clone(),
                            x: x + PAD_H as i32,
                            y: cy + ty,
                            font_size: fs,
                            color,
                            max_w: if w >= 2 * PAD_H {
                                w - 2 * PAD_H
                            } else {
                                0
                            },
                        },
                    );
                    cy = cy + row_h as i32;
                },
                MenuItem::Separator => {
                    let sep_y = cy + (SEPARATOR_HEIGHT / 2) as i32;
                    ops.push(
                        DrawOp::Line {
                            x1: x + PAD_H as i32,
                            y1: sep_y,
                            x2: x + w as i32 - PAD_H as i32,
                            y2: sep_y,
                            width: 1,
                            color: theme.border_subtle,
                        },
                    );
                    cy = cy + SEPARATOR_HEIGHT as i32;
                },
                MenuItem::Submenu { label, .. } => {
                    if selected {
                        ops.push(
                            DrawOp::FillRect {
                                x: x + 1,
                                y: cy,
                                w: if w >= 2 {
                                    w - 2
                                } else {
                                    0
                                },
                                h: row_h,
                                color: theme.accent_subtle,
                            },
                        );
                    }
                    ops.push(
                        DrawOp::TextEllipsis {
                            text: label.clone(),
                            x: x + PAD_H as i32,
                            y: cy + ty,
                            font_size: fs,
                            color: theme.text_primary,
                            max_w: if w >= 3 * PAD_H {
                                w - 3 * PAD_H
                            } else {
                                0
                            },
                        },
                    );
                    let mut arrow = String::new();
                    push_char(&mut arrow, '\u{25B6}');
                    assert(arrow@ =~= submenu_arrow());
                    ops.push(
                        DrawOp::Text {
                            text: arrow,
                            x: x + w as i32 - arrow_w as i32 - PAD_H as i32,
                            y: cy + ty,
                            font_size: fs,
                            color: theme.text_secondary,
                        },
                    );
                    cy = cy + row_h as i32;
                },
            }
            assert(cmds(ops@) =~= menu_item_ops(*self, *theme, x, y, w, text_h, arrow_w, i as int));
            proof {
                lemma_cmds_add(out@, ops@);
            }
            out.append(&mut ops);
            i = i + 1;
        }
        out
    }

    /// Check if a click at `(mx, my)` is outside the menu bounds (see
    /// [`ContextMenu::compute_size`] for the metrics).
    ///
    /// Returns `true` if the menu is visible and the click is outside
    /// (caller should dismiss the menu), `false` otherwise.
    pub fn dismiss_on_click(
        &self,
        label_widths: &Vec<u32>,
        arrow_w: u32,
        text_h: u32,
        mx: i32,
        my: i32,
    ) -> (r: bool)
        requires
            self.visible ==> {
                &&& label_widths@.len() == self.items@.len()
                &&& text_h + 6 <= u32::MAX
                &&& arrow_w + PAD_H <= u32::MAX
                &&& menu_size(self.items@, label_widths@, arrow_w, text_h).0 <= i32::MAX
                &&& menu_size(self.items@, label_widths@, arrow_w, text_h).1 <= i32::MAX
                &&& self.x + menu_size(self.items@, label_widths@, arrow_w, text_h).0 <= i32::MAX
                &&& self.y + menu_size(self.items@, label_widths@, arrow_w, text_h).1 <= i32::MAX
            },
        ensures
            r == (self.visible && {
                let (w, h) = menu_size(self.items@, label_widths@, arrow_w, text_h);
                !(mx >= self.x && mx < self.x + w && my >= self.y && my < self.y + h)
            }),
    {
        if !self.visible {
            return false;
        }
        let (w, h) = self.compute_size(label_widths, arrow_w, text_h);
        !(mx >= self.x && mx < self.x + w as i32 && my >= self.y && my < self.y + h as i32)
    }

    /// Starting from `start`, search forward (wrapping) for a selectable item.
    fn find_selectable_forward(&self, start: usize) -> (r: usize)
        requires
            self.items@.len() > 0,
            start < self.items@.len(),
            self.items@.len() <= isize::MAX,
        ensures
            r == find_forward_spec(self.items@, start as int),
    {
        let n = self.items.len();
        let ghost items = self.items@;
        let ghost p = fwd_hit(items, start as int);
        let mut offset: usize = 0;
        while offset < n
            invariant
                n == items.len(),
                items == self.items@,
                start < n,
                n <= isize::MAX,
                p == fwd_hit(items, start as int),
                offset <= n,
                forall|j: int| 0 <= j < offset ==> !#[trigger] p(j),
            decreases n - offset,
        {
            let i = (start + offset) % n;
            if self.items[i].is_selectable() {
                proof {
                    assert(p(offset as int));
                    lemma_least_in_is(p, 0, n - 1, offset as int);
                }
                return i;
            }
            offset = offset + 1;
        }
        proof {
            lemma_least_in_none(p, 0, n - 1);
        }
        start
    }

    /// Starting from `start`, search backward (wrapping) for a selectable item.
    fn find_selectable_backward(&self, start: usize) -> (r: usize)
        requires
            self.items@.len() > 0,
            start + self.items@.len() <= usize::MAX,
        ensures
            r == find_backward_spec(self.items@, start as int),
    {
        let n = self.items.len();
        let ghost items = self.items@;
        let ghost p = back_hit(items, start as int);
        let mut offset: usize = 0;
        while offset < n
            invariant
                n == items.len(),
                items == self.items@,
                start + n <= usize::MAX,
                p == back_hit(items, start as int),
                offset <= n,
                forall|j: int| 0 <= j < offset ==> !#[trigger] p(j),
            decreases n - offset,
        {
            let i = (start + n - offset) % n;
            proof {
                vstd::arithmetic::div_mod::lemma_mod_add_multiples_vanish(start - offset, n as int);
                assert(i == cyc_back(start as int, offset as int, n as int));
            }
            if self.items[i].is_selectable() {
                proof {
                    assert(p(offset as int));
                    lemma_least_in_is(p, 0, n - 1, offset as int);
                }
                return i;
            }
            offset = offset + 1;
        }
        proof {
            lemma_least_in_none(p, 0, n - 1);
        }
        start
    }
}

/// Row totals only grow as more items are counted.
pub proof fn lemma_rows_mono(items: Seq<MenuItem>, row_h: int, a: int, b: int)
    requires
        0 <= a <= b,
        row_h >= 0,
    ensures
        0 <= rows_height(items, row_h, a) <= rows_height(items, row_h, b),
    decreases b,
{
    if a < b {
        lemma_rows_mono(items, row_h, a, b - 1);
    } else if a > 0 {
        lemma_rows_mono(items, row_h, a - 1, a - 1);
    }
}

/// The widest label is never negative.
pub proof fn lemma_max_label_nonneg(items: Seq<MenuItem>, widths: Seq<u32>, n: int)
    ensures
        max_label_width(items, widths, n) >= 0,
    decreases n,
{
    if n > 0 {
        lemma_max_label_nonneg(items, widths, n - 1);
    }
}

/// A forward search from an in-range start lands on a selectable item
/// whenever the menu has one.
pub proof fn lemma_forward_finds_selectable(items: Seq<MenuItem>, start: int, e: int)
    requires
        0 <= start < items.len(),
        0 <= e < items.len(),
        selectable(items[e]),
    ensures
        0 <= find_forward_spec(items, start) < items.len(),
        selectable(items[find_forward_spec(items, start)]),
{
    let n = items.len() as int;
    let p = fwd_hit(items, start);
    crate::cyclic::lemma_fwd_covers(start, n, e);
    let k = choose|k: int| 1 <= k <= n && #[trigger] cyc_fwd(start, k, n) == e;
    crate::cyclic::lemma_fwd_full(start, n);
    crate::cyclic::lemma_zero_steps(start, n);
    let k0 = if k == n {
        0
    } else {
        k
    };
    assert(cyc_fwd(start, k0, n) == e);
    assert(p(k0));
    crate::cyclic::lemma_least_in_some(p, 0, n - 1, k0);
    let kr = least_in(p, 0, n - 1)->0;
    vstd::arithmetic::div_mod::lemma_mod_bound(start + kr, n);
}

} // verus!
