//! Keyboard focus navigation for widget groups.
//!
//! `FocusRing` tracks which widget index has focus and handles
//! directional navigation (next/prev/wrapping).
//!
//! `FocusManager` builds on `FocusRing` to provide Tab/Shift-Tab
//! keyboard cycling and skip-disabled item logic.
//!
//! `SpatialFocusManager` adds spatial (arrow-key) navigation and
//! tab-index ordering over a set of `FocusableItem`s with bounds.
use crate::color::Color;
use crate::input::{Button, InputEvent};
use crate::layout::{as_i32, to_i32, trunc_div};
use crate::theme::Theme;
use vstd::prelude::*;

verus! {

/// Direction of focus movement.
#[derive(Debug, Clone, Copy, PartialEq, Eq, Structural)]
pub enum FocusDir {
    /// Move focus to the next widget.
    Next,
    /// Move focus to the previous widget.
    Prev,
}

/// Tracks keyboard focus across a group of widgets.
#[derive(Debug, Clone, Copy)]
pub struct FocusRing {
    /// Total number of focusable items.
    count: usize,
    /// Index of the currently focused item.
    focused: usize,
    /// Whether wrap-around is enabled.
    pub wrap: bool,
}

/// The index one step from `focused` in direction `dir` over `count` items.
pub open spec fn step_spec(count: nat, wrap: bool, focused: nat, dir: FocusDir) -> nat {
    if count == 0 {
        focused
    } else {
        match dir {
            FocusDir::Next => if focused + 1 < count {
                focused + 1
            } else if wrap {
                0
            } else {
                focused
            },
            FocusDir::Prev => if focused > 0 {
                (focused - 1) as nat
            } else if wrap {
                (count - 1) as nat
            } else {
                focused
            },
        }
    }
}

/// The index reached after `k` steps from `start` in direction `dir`.
pub open spec fn steps_spec(count: nat, wrap: bool, start: nat, dir: FocusDir, k: nat) -> nat
    decreases k,
{
    if k == 0 {
        start
    } else {
        step_spec(count, wrap, steps_spec(count, wrap, start, dir, (k - 1) as nat), dir)
    }
}

/// A step from an in-range index stays in range.
pub proof fn lemma_step_in_range(count: nat, wrap: bool, focused: nat, dir: FocusDir)
    requires
        focused < count,
    ensures
        step_spec(count, wrap, focused, dir) < count,
{
}

/// Any number of steps from an in-range index stays in range.
pub proof fn lemma_steps_in_range(count: nat, wrap: bool, start: nat, dir: FocusDir, k: nat)
    requires
        start < count,
    ensures
        steps_spec(count, wrap, start, dir, k) < count,
    decreases k,
{
    if k > 0 {
        lemma_steps_in_range(count, wrap, start, dir, (k - 1) as nat);
    }
}

/// With wrap-around, `count` steps in one direction come back to the start.
pub proof fn lemma_full_cycle_returns(count: nat, start: nat, dir: FocusDir)
    requires
        start < count,
    ensures
        steps_spec(count, true, start, dir, count) == start,
{
    lemma_cyclic_steps(count, start, dir, count);
    vstd::arithmetic::div_mod::lemma_small_mod(start, count);
    vstd::arithmetic::div_mod::lemma_mod_add_multiples_vanish(start as int, count as int);
}

proof fn lemma_mod_step(a: int, n: int, delta: int)
    requires
        n > 0,
        delta == 1 || delta == -1,
    ensures
        ({
            let r = a % n;
            (a + delta) % n == (if 0 <= r + delta < n {
                r + delta
            } else if r + delta == n {
                0
            } else {
                n - 1
            })
        }),
{
    let q = a / n;
    let r = a % n;
    vstd::arithmetic::div_mod::lemma_fundamental_div_mod(a, n);
    vstd::arithmetic::div_mod::lemma_mod_bound(a, n);
    assert(a == q * n + r) by (nonlinear_arith)
        requires
            a == n * q + r,
    ;
    if 0 <= r + delta < n {
        vstd::arithmetic::div_mod::lemma_fundamental_div_mod_converse(a + delta, n, q, r + delta);
    } else if r + delta == n {
        assert(a + delta == (q + 1) * n + 0) by (nonlinear_arith)
            requires
                a == q * n + r,
                r + delta == n,
        ;
        vstd::arithmetic::div_mod::lemma_fundamental_div_mod_converse(a + delta, n, q + 1, 0);
    } else {
        assert(a + delta == (q - 1) * n + (n - 1)) by (nonlinear_arith)
            requires
                a == q * n + r,
                r + delta == -1,
        ;
        vstd::arithmetic::div_mod::lemma_fundamental_div_mod_converse(a + delta, n, q - 1, n - 1);
    }
}

proof fn lemma_cyclic_steps(count: nat, start: nat, dir: FocusDir, k: nat)
    requires
        start < count,
        k <= count,
    ensures
        steps_spec(count, true, start, dir, k) == (match dir {
            FocusDir::Next => ((start + k) as int) % (count as int),
            FocusDir::Prev => (start - k + count) % (count as int),
        }),
    decreases k,
{
    vstd::arithmetic::div_mod::lemma_small_mod(start, count);
    if k == 0 {
        if dir == FocusDir::Prev {
            vstd::arithmetic::div_mod::lemma_mod_add_multiples_vanish(start as int, count as int);
        }
    } else {
        lemma_cyclic_steps(count, start, dir, (k - 1) as nat);
        match dir {
            FocusDir::Next => {
                lemma_mod_step(start + k - 1, count as int, 1);
            },
            FocusDir::Prev => {
                lemma_mod_step(start - (k - 1) + count, count as int, -1);
            },
        }
    }
}

impl FocusRing {
    /// Total number of focusable items.
    pub closed spec fn count_spec(&self) -> nat {
        self.count as nat
    }

    /// Whether wrap-around is enabled.
    pub closed spec fn wrap_spec(&self) -> bool {
        self.wrap
    }

    /// Index of the currently focused item.
    pub closed spec fn focused_spec(&self) -> nat {
        self.focused as nat
    }

    /// The focused index is in range (or 0 when there are no items).
    pub open spec fn wf(&self) -> bool {
        if self.count_spec() == 0 {
            self.focused_spec() == 0
        } else {
            self.focused_spec() < self.count_spec()
        }
    }

    /// Create a new focus ring with the given number of items.
    pub fn new(count: usize) -> (r: Self)
        ensures
            r.wf(),
            r.count_spec() == count,
            r.focused_spec() == 0,
            r.wrap_spec(),
    {
        FocusRing { count, focused: 0, wrap: true }
    }

    /// Get the current focused index.
    pub fn focused(&self) -> (r: usize)
        ensures
            r == self.focused_spec(),
    {
        self.focused
    }

    /// Return whether the given index has focus.
    pub fn is_focused(&self, index: usize) -> (r: bool)
        ensures
            r == (self.focused_spec() == index),
    {
        self.focused == index
    }

    /// Set focus to a specific index (clamped to bounds).
    pub fn set_focused(&mut self, index: usize)
        requires
            old(self).wf(),
        ensures
            final(self).wf(),
            final(self).count_spec() == old(self).count_spec(),
            final(self).wrap_spec() == old(self).wrap_spec(),
            final(self).focused_spec() == (if old(self).count_spec() > 0 {
                if index < old(self).count_spec() {
                    index as nat
                } else {
                    (old(self).count_spec() - 1) as nat
                }
            } else {
                old(self).focused_spec()
            }),
    {
        if self.count > 0 {
            self.focused = if index < self.count - 1 {
                index
            } else {
                self.count - 1
            };
        }
    }

    /// Update the total number of focusable items.
    ///
    /// If the current focus index exceeds the new count, it is clamped.
    pub fn set_count(&mut self, count: usize)
        requires
            old(self).wf(),
        ensures
            final(self).wf(),
            final(self).count_spec() == count,
            final(self).wrap_spec() == old(self).wrap_spec(),
            final(self).focused_spec() == (if count > 0 {
                if old(self).focused_spec() < count {
                    old(self).focused_spec()
                } else {
                    (count - 1) as nat
                }
            } else {
                0
            }),
    {
        self.count = count;
        if count > 0 {
            self.focused = if self.focused < count - 1 {
                self.focused
            } else {
                count - 1
            };
        } else {
            self.focused = 0;
        }
    }

    /// Total number of focusable items.
    pub fn count(&self) -> (r: usize)
        ensures
            r == self.count_spec(),
    {
        self.count
    }

    /// Move focus in the given direction.
    ///
    /// Returns the new focused index.
    pub fn move_focus(&mut self, dir: FocusDir) -> (r: usize)
        requires
            old(self).wf(),
        ensures
            final(self).wf(),
            final(self).count_spec() == old(self).count_spec(),
            final(self).wrap_spec() == old(self).wrap_spec(),
            final(self).focused_spec() == step_spec(
                old(self).count_spec(),
                old(self).wrap_spec(),
                old(self).focused_spec(),
                dir,
            ),
            r == (if old(self).count_spec() == 0 {
                0
            } else {
                final(self).focused_spec()
            }),
    {
        if self.count == 0 {
            return 0;
        }
        match dir {
            FocusDir::Next => {
                if self.focused + 1 < self.count {
                    self.focused = self.focused + 1;
                } else if self.wrap {
                    self.focused = 0;
                }
            },
            FocusDir::Prev => {
                if self.focused > 0 {
                    self.focused = self.focused - 1;
                } else if self.wrap {
                    self.focused = self.count - 1;
                }
            },
        }
        self.focused
    }

    /// Move focus to the first item.
    pub fn focus_first(&mut self)
        requires
            old(self).wf(),
        ensures
            final(self).wf(),
            final(self).count_spec() == old(self).count_spec(),
            final(self).wrap_spec() == old(self).wrap_spec(),
            final(self).focused_spec() == 0,
    {
        self.focused = 0;
    }

    /// Move focus to the last item.
    pub fn focus_last(&mut self)
        requires
            old(self).wf(),
        ensures
            final(self).wf(),
            final(self).count_spec() == old(self).count_spec(),
            final(self).wrap_spec() == old(self).wrap_spec(),
            final(self).focused_spec() == (if old(self).count_spec() > 0 {
                (old(self).count_spec() - 1) as nat
            } else {
                old(self).focused_spec()
            }),
    {
        if self.count > 0 {
            self.focused = self.count - 1;
        }
    }
}

/// Visual style for focus indicators drawn around focused widgets.
#[derive(Debug, Clone, Copy)]
pub struct FocusStyle {
    /// Border color for the focus indicator.
    pub color: Color,
    /// Border width in pixels.
    pub width: u16,
    /// Corner radius for the focus border.
    pub radius: u16,
    /// Gap between the widget edge and the focus border.
    pub offset: i32,
}

/// Clamp a mathematical integer into the `i32` range.
pub open spec fn sat_i32(v: int) -> int {
    if v > i32::MAX {
        i32::MAX as int
    } else if v < i32::MIN {
        i32::MIN as int
    } else {
        v
    }
}

/// Clamp a mathematical integer into the `u32` range.
pub open spec fn sat_u32(v: int) -> int {
    if v > u32::MAX {
        u32::MAX as int
    } else if v < 0 {
        0
    } else {
        v
    }
}

/// Saturating `i32` subtraction.
pub fn sat_sub_i32(a: i32, b: i32) -> (r: i32)
    ensures
        r == sat_i32(a - b),
{
    let d: i64 = a as i64 - b as i64;
    if d > i32::MAX as i64 {
        i32::MAX
    } else if d < i32::MIN as i64 {
        i32::MIN
    } else {
        d as i32
    }
}

/// Saturating `i32` addition.
pub fn sat_add_i32(a: i32, b: i32) -> (r: i32)
    ensures
        r == sat_i32(a + b),
{
    let d: i64 = a as i64 + b as i64;
    if d > i32::MAX as i64 {
        i32::MAX
    } else if d < i32::MIN as i64 {
        i32::MIN
    } else {
        d as i32
    }
}

/// Saturating addition of a signed delta to a `u32`.
pub fn sat_add_signed_u32(a: u32, b: i32) -> (r: u32)
    ensures
        r == sat_u32(a + b),
{
    let d: i64 = a as i64 + b as i64;
    if d > u32::MAX as i64 {
        u32::MAX
    } else if d < 0 {
        0
    } else {
        d as u32
    }
}

impl FocusStyle {
    /// Create a focus style from a theme's accent color.
    pub fn from_accent(accent: Color) -> (r: Self)
        ensures
            r.color == accent,
            r.width == 1,
            r.radius == 2,
            r.offset == 1,
    {
        FocusStyle { color: accent, width: 1, radius: 2, offset: 1 }
    }

    /// The focus style of a theme: the accent-derived style, with the
    /// theme's ring color, width and offset wherever the theme sets them.
    pub fn from_theme(theme: &Theme) -> (r: Self)
        ensures
            r.color == match theme.focus_ring_color {
                Some(c) => c,
                None => theme.accent,
            },
            r.width == match theme.focus_ring_width {
                Some(w) => w,
                None => 1u16,
            },
            r.offset == match theme.focus_ring_offset {
                Some(o) => o,
                None => 1i32,
            },
            r.radius == 2,
    {
        let mut style = Self::from_accent(theme.accent);
        if let Some(color) = theme.focus_ring_color {
            style.color = color;
        }
        if let Some(width) = theme.focus_ring_width {
            style.width = width;
        }
        if let Some(offset) = theme.focus_ring_offset {
            style.offset = offset;
        }
        style
    }

    /// Compute the focus indicator rectangle given a widget rect.
    ///
    /// The rectangle grows by `offset` on every side (shrinks for a negative
    /// offset); every coordinate saturates at its type's bounds.
    pub fn indicator_rect(&self, x: i32, y: i32, w: u32, h: u32) -> (r: (i32, i32, u32, u32))
        ensures
            r.0 == sat_i32(x - self.offset),
            r.1 == sat_i32(y - self.offset),
            r.2 == sat_u32(w + sat_i32(2 * self.offset)),
            r.3 == sat_u32(h + sat_i32(2 * self.offset)),
    {
        let off = self.offset;
        let delta = sat_add_i32(off, off);
        (
            sat_sub_i32(x, off),
            sat_sub_i32(y, off),
            sat_add_signed_u32(w, delta),
            sat_add_signed_u32(h, delta),
        )
    }
}

/// Keyboard navigation action derived from input events.
#[derive(Debug, Clone, Copy, PartialEq, Eq, Structural)]
pub enum FocusAction {
    /// Tab key: move to the next focusable widget.
    TabNext,
    /// Shift+Tab: move to the previous focusable widget.
    TabPrev,
    /// Activate/confirm the focused widget (Enter/Cross).
    Activate,
    /// Home key: focus the first widget.
    Home,
    /// End key: focus the last widget.
    End,
}

/// Whether item `i` is enabled according to the flag list (indices past the
/// end count as disabled).
pub open spec fn enabled_at(enabled: Seq<bool>, i: nat) -> bool {
    i < enabled.len() && enabled[i as int]
}

/// Where a skipping move ends: the first of the positions reached after
/// `lo..=hi` steps that is enabled, or `start` when none of them is.
pub open spec fn first_enabled_step(
    count: nat,
    wrap: bool,
    enabled: Seq<bool>,
    start: nat,
    dir: FocusDir,
    lo: nat,
    hi: nat,
) -> nat {
    if exists|k: nat|
        lo <= k <= hi && #[trigger] enabled_at(enabled, steps_spec(count, wrap, start, dir, k)) {
        let k = choose|k: nat|
            lo <= k <= hi && #[trigger] enabled_at(enabled, steps_spec(count, wrap, start, dir, k))
                && forall|j: nat|
                lo <= j < k ==> !enabled_at(enabled, #[trigger] steps_spec(count, wrap, start, dir, j));
        steps_spec(count, wrap, start, dir, k)
    } else {
        start
    }
}

/// With no item enabled, a skipping move from an in-range start stays put.
proof fn lemma_none_enabled_stays(
    count: nat,
    wrap: bool,
    enabled: Seq<bool>,
    start: nat,
    dir: FocusDir,
    lo: nat,
    hi: nat,
)
    requires
        start < count,
        forall|i: nat| i < count ==> !enabled_at(enabled, i),
    ensures
        first_enabled_step(count, wrap, enabled, start, dir, lo, hi) == start,
{
    assert forall|k: nat| !enabled_at(enabled, #[trigger] steps_spec(count, wrap, start, dir, k)) by {
        lemma_steps_in_range(count, wrap, start, dir, k);
    }
}

/// A skipping move from an in-range start ends in range.
proof fn lemma_first_enabled_in_range(
    count: nat,
    wrap: bool,
    enabled: Seq<bool>,
    start: nat,
    dir: FocusDir,
    lo: nat,
    hi: nat,
)
    requires
        start < count,
    ensures
        first_enabled_step(count, wrap, enabled, start, dir, lo, hi) < count,
{
    assert forall|k: nat| #[trigger] steps_spec(count, wrap, start, dir, k) < count by {
        lemma_steps_in_range(count, wrap, start, dir, k);
    }
}

/// If some position in `lo..=hi` is enabled, a least such one exists.
proof fn lemma_least_enabled_step(
    count: nat,
    wrap: bool,
    enabled: Seq<bool>,
    start: nat,
    dir: FocusDir,
    lo: nat,
    hi: nat,
    k0: nat,
)
    requires
        lo <= k0 <= hi,
        enabled_at(enabled, steps_spec(count, wrap, start, dir, k0)),
    ensures
        exists|k: nat|
            lo <= k <= hi && #[trigger] enabled_at(enabled, steps_spec(count, wrap, start, dir, k))
                && forall|j: nat|
                lo <= j < k ==> !enabled_at(enabled, #[trigger] steps_spec(count, wrap, start, dir, j)),
    decreases k0 - lo,
{
    if exists|j: nat| lo <= j < k0 && enabled_at(enabled, #[trigger] steps_spec(count, wrap, start, dir, j)) {
        let j = choose|j: nat| lo <= j < k0 && enabled_at(enabled, #[trigger] steps_spec(count, wrap, start, dir, j));
        lemma_least_enabled_step(count, wrap, enabled, start, dir, lo, hi, j);
    }
}

/// Characterisation of `first_enabled_step` at a known least enabled step.
proof fn lemma_first_enabled_is(
    count: nat,
    wrap: bool,
    enabled: Seq<bool>,
    start: nat,
    dir: FocusDir,
    lo: nat,
    hi: nat,
    k: nat,
)
    requires
        lo <= k <= hi,
        enabled_at(enabled, steps_spec(count, wrap, start, dir, k)),
        forall|j: nat| lo <= j < k ==> !enabled_at(enabled, #[trigger] steps_spec(count, wrap, start, dir, j)),
    ensures
        first_enabled_step(count, wrap, enabled, start, dir, lo, hi) == steps_spec(count, wrap, start, dir, k),
{
    lemma_least_enabled_step(count, wrap, enabled, start, dir, lo, hi, k);
    let k2 = choose|k2: nat|
        lo <= k2 <= hi && #[trigger] enabled_at(enabled, steps_spec(count, wrap, start, dir, k2))
            && forall|j: nat|
            lo <= j < k2 ==> !enabled_at(enabled, #[trigger] steps_spec(count, wrap, start, dir, j));
    if k2 < k {
        assert(!enabled_at(enabled, steps_spec(count, wrap, start, dir, k2)));
    } else if k < k2 {
        assert(!enabled_at(enabled, steps_spec(count, wrap, start, dir, k)));
    }
}

/// Manages keyboard focus across a set of widgets, with support
/// for Tab/Shift-Tab cycling and disabled-item skipping.
#[derive(Debug, Clone)]
pub struct FocusManager {
    /// The underlying focus ring.
    ring: FocusRing,
    /// Per-item enabled state. Items marked `false` are skipped
    /// during Tab navigation.
    enabled: Vec<bool>,
    /// Whether keyboard focus is currently active. When false,
    /// no widget shows a focus indicator.
    pub active: bool,
}

impl FocusManager {
    /// The underlying focus ring.
    pub closed spec fn ring_spec(&self) -> FocusRing {
        self.ring
    }

    /// Whether keyboard focus is active.
    pub closed spec fn active_spec(&self) -> bool {
        self.active
    }

    /// Per-item enabled flags.
    pub closed spec fn enabled_spec(&self) -> Seq<bool> {
        self.enabled@
    }

    /// The ring is well formed.
    pub open spec fn wf(&self) -> bool {
        self.ring_spec().wf()
    }

    /// Create a new focus manager with `count` focusable items,
    /// all initially enabled.
    pub fn new(count: usize) -> (r: Self)
        ensures
            r.wf(),
            r.ring_spec().count_spec() == count,
            r.ring_spec().focused_spec() == 0,
            r.ring_spec().wrap_spec(),
            r.enabled_spec() == Seq::new(count as nat, |i: int| true),
            !r.active_spec(),
    {
        let mut enabled: Vec<bool> = Vec::new();
        let mut i: usize = 0;
        while i < count
            invariant
                i <= count,
                enabled@ == Seq::new(i as nat, |k: int| true),
            decreases count - i,
        {
            enabled.push(true);
            i = i + 1;
        }
        FocusManager { ring: FocusRing::new(count), enabled, active: false }
    }

    /// Get the current focused index.
    pub fn focused(&self) -> (r: usize)
        ensures
            r == self.ring_spec().focused_spec(),
    {
        self.ring.focused()
    }

    /// Whether the given index currently has visible focus.
    pub fn has_focus(&self, index: usize) -> (r: bool)
        ensures
            r == (self.active_spec() && self.ring_spec().focused_spec() == index),
    {
        self.active && self.ring.is_focused(index)
    }

    /// Total number of managed items.
    pub fn count(&self) -> (r: usize)
        ensures
            r == self.ring_spec().count_spec(),
    {
        self.ring.count()
    }

    /// Access the underlying `FocusRing`.
    pub fn ring(&self) -> (r: &FocusRing)
        ensures
            *r == self.ring_spec(),
    {
        &self.ring
    }

    /// Mutably access the underlying `FocusRing`.
    pub fn ring_mut(&mut self) -> (r: &mut FocusRing)
        ensures
            *r == old(self).ring_spec(),
            final(self).ring_spec() == *final(r),
            final(self).enabled_spec() == old(self).enabled_spec(),
            final(self).active_spec() == old(self).active_spec(),
    {
        &mut self.ring
    }

    /// Set whether a specific item is enabled for focus.
    pub fn set_enabled(&mut self, index: usize, enabled: bool)
        ensures
            final(self).ring_spec() == old(self).ring_spec(),
            final(self).active_spec() == old(self).active_spec(),
            final(self).enabled_spec() == (if index < old(self).enabled_spec().len() {
                old(self).enabled_spec().update(index as int, enabled)
            } else {
                old(self).enabled_spec()
            }),
    {
        if index < self.enabled.len() {
            self.enabled.set(index, enabled);
        }
    }

    /// Whether a specific item is enabled.
    pub fn is_enabled(&self, index: usize) -> (r: bool)
        ensures
            r == enabled_at(self.enabled_spec(), index as nat),
    {
        if index < self.enabled.len() {
            self.enabled[index]
        } else {
            false
        }
    }

    /// Update the item count. Grows or shrinks the enabled list; new items
    /// are enabled.
    pub fn set_count(&mut self, count: usize)
        requires
            old(self).wf(),
        ensures
            final(self).wf(),
            final(self).active_spec() == old(self).active_spec(),
            final(self).ring_spec().count_spec() == count,
            final(self).ring_spec().wrap_spec() == old(self).ring_spec().wrap_spec(),
            final(self).ring_spec().focused_spec() == (if count > 0 {
                if old(self).ring_spec().focused_spec() < count {
                    old(self).ring_spec().focused_spec()
                } else {
                    (count - 1) as nat
                }
            } else {
                0
            }),
            final(self).enabled_spec().len() == count,
            forall|i: int|
                0 <= i < count ==> #[trigger] final(self).enabled_spec()[i] == (if i
                    < old(self).enabled_spec().len() {
                    old(self).enabled_spec()[i]
                } else {
                    true
                }),
    {
        self.ring.set_count(count);
        let ghost old_en = self.enabled@;
        let ghost ring = self.ring;
        let ghost act = self.active;
        if count <= self.enabled.len() {
            self.enabled.truncate(count);
        } else {
            while self.enabled.len() < count
                invariant
                    old_en.len() <= self.enabled@.len() <= count,
                    self.ring == ring,
                    self.active == act,
                    forall|i: int|
                        0 <= i < self.enabled@.len() ==> #[trigger] self.enabled@[i] == (if i
                            < old_en.len() {
                            old_en[i]
                        } else {
                            true
                        }),
                decreases count - self.enabled@.len(),
            {
                self.enabled.push(true);
            }
        }
    }

    /// Where a Tab-style move in direction `dir` lands: the first enabled
    /// index among the next `count` positions, or the start when none is.
    pub open spec fn move_skip_spec(&self, dir: FocusDir) -> nat {
        let ring = self.ring_spec();
        first_enabled_step(
            ring.count_spec(),
            ring.wrap_spec(),
            self.enabled_spec(),
            ring.focused_spec(),
            dir,
            1,
            ring.count_spec(),
        )
    }

    /// Where skipping to an enabled item from `start` lands: `start` itself
    /// when enabled, else the first enabled index among the following
    /// positions (fewer than `count` steps away), else `start`.
    pub open spec fn skip_to_enabled_spec(&self, start: nat, dir: FocusDir) -> nat {
        let ring = self.ring_spec();
        first_enabled_step(
            ring.count_spec(),
            ring.wrap_spec(),
            self.enabled_spec(),
            start,
            dir,
            0,
            (ring.count_spec() - 1) as nat,
        )
    }

    /// Whether none of the items is enabled.
    pub open spec fn none_enabled(&self) -> bool {
        forall|i: nat| i < self.ring_spec().count_spec() ==> !enabled_at(self.enabled_spec(), i)
    }

    /// Where Home or End lands when it starts searching at `start`: the
    /// enabled item the search finds, or the current focus when the search
    /// finds none (focus does not move).
    pub open spec fn jump_target(&self, start: nat, dir: FocusDir) -> nat {
        let s = self.skip_to_enabled_spec(start, dir);
        if enabled_at(self.enabled_spec(), s) {
            s
        } else {
            self.ring_spec().focused_spec()
        }
    }

    /// The index that `handle_action(action)` leaves focused.
    pub open spec fn action_target(&self, action: FocusAction) -> nat {
        let ring = self.ring_spec();
        if ring.count_spec() == 0 {
            ring.focused_spec()
        } else {
            match action {
                FocusAction::TabNext => self.move_skip_spec(FocusDir::Next),
                FocusAction::TabPrev => self.move_skip_spec(FocusDir::Prev),
                FocusAction::Activate => ring.focused_spec(),
                FocusAction::Home => self.jump_target(0, FocusDir::Next),
                FocusAction::End => self.jump_target((ring.count_spec() - 1) as nat, FocusDir::Prev),
            }
        }
    }

    /// Process a focus action and return the new focused index.
    ///
    /// Skips disabled items when navigating. If all items are
    /// disabled, focus does not move.
    pub fn handle_action(&mut self, action: FocusAction) -> (r: usize)
        requires
            old(self).wf(),
        ensures
            final(self).wf(),
            final(self).enabled_spec() == old(self).enabled_spec(),
            final(self).ring_spec().count_spec() == old(self).ring_spec().count_spec(),
            final(self).ring_spec().wrap_spec() == old(self).ring_spec().wrap_spec(),
            final(self).ring_spec().focused_spec() == old(self).action_target(action),
            final(self).active_spec() == (old(self).active_spec() || old(self).ring_spec().count_spec() > 0),
            r == (if old(self).ring_spec().count_spec() == 0 {
                0
            } else {
                old(self).action_target(action)
            }),
            old(self).none_enabled() ==> {
                &&& final(self).ring_spec().focused_spec() == old(self).ring_spec().focused_spec()
                &&& r == old(self).ring_spec().focused_spec()
            },
    {
        if self.ring.count() == 0 {
            return 0;
        }
        self.active = true;
        proof {
            if old(self).none_enabled() {
                let ring = old(self).ring_spec();
                lemma_none_enabled_stays(
                    ring.count_spec(),
                    ring.wrap_spec(),
                    old(self).enabled_spec(),
                    ring.focused_spec(),
                    FocusDir::Next,
                    1,
                    ring.count_spec(),
                );
                lemma_none_enabled_stays(
                    ring.count_spec(),
                    ring.wrap_spec(),
                    old(self).enabled_spec(),
                    ring.focused_spec(),
                    FocusDir::Prev,
                    1,
                    ring.count_spec(),
                );
            }
        }
        match action {
            FocusAction::TabNext => self.move_skip(FocusDir::Next),
            FocusAction::TabPrev => self.move_skip(FocusDir::Prev),
            FocusAction::Activate => self.ring.focused(),
            FocusAction::Home => {
                let prev = self.ring.focused();
                self.ring.focus_first();
                let s = self.skip_to_enabled(FocusDir::Next);
                proof {
                    lemma_first_enabled_in_range(
                        old(self).ring_spec().count_spec(),
                        old(self).ring_spec().wrap_spec(),
                        old(self).enabled_spec(),
                        0,
                        FocusDir::Next,
                        0,
                        (old(self).ring_spec().count_spec() - 1) as nat,
                    );
                }
                if self.is_enabled(s) {
                    s
                } else {
                    self.ring.set_focused(prev);
                    prev
                }
            },
            FocusAction::End => {
                let prev = self.ring.focused();
                self.ring.focus_last();
                let s = self.skip_to_enabled(FocusDir::Prev);
                proof {
                    lemma_first_enabled_in_range(
                        old(self).ring_spec().count_spec(),
                        old(self).ring_spec().wrap_spec(),
                        old(self).enabled_spec(),
                        (old(self).ring_spec().count_spec() - 1) as nat,
                        FocusDir::Prev,
                        0,
                        (old(self).ring_spec().count_spec() - 1) as nat,
                    );
                }
                if self.is_enabled(s) {
                    s
                } else {
                    self.ring.set_focused(prev);
                    prev
                }
            },
        }
    }

    /// Move focus in the given direction, skipping disabled items.
    fn move_skip(&mut self, dir: FocusDir) -> (r: usize)
        requires
            old(self).wf(),
        ensures
            final(self).wf(),
            final(self).enabled_spec() == old(self).enabled_spec(),
            final(self).active_spec() == old(self).active_spec(),
            final(self).ring_spec().count_spec() == old(self).ring_spec().count_spec(),
            final(self).ring_spec().wrap_spec() == old(self).ring_spec().wrap_spec(),
            final(self).ring_spec().focused_spec() == old(self).move_skip_spec(dir),
            r == final(self).ring_spec().focused_spec(),
    {
        let ghost count = self.ring.count_spec();
        let ghost wrap = self.ring.wrap;
        let ghost en = self.enabled@;
        let ghost act = self.active;
        let start = self.ring.focused();
        self.ring.move_focus(dir);
        let mut attempts: usize = 0;
        assert(steps_spec(count, wrap, start as nat, dir, 0) == start);
        assert(steps_spec(count, wrap, start as nat, dir, 1) == self.ring.focused_spec());
        while !self.is_enabled(self.ring.focused()) && attempts < self.ring.count()
            invariant
                self.ring.wf(),
                self.ring.count_spec() == count,
                self.ring.wrap == wrap,
                self.enabled@ == en,
                self.active == act,
                attempts <= count,
                start < count || count == 0,
                self.ring.focused_spec() == steps_spec(count, wrap, start as nat, dir, (attempts + 1) as nat),
                forall|j: nat|
                    1 <= j <= attempts ==> !enabled_at(en, #[trigger] steps_spec(count, wrap, start as nat, dir, j)),
            decreases count - attempts,
        {
            self.ring.move_focus(dir);
            attempts = attempts + 1;
        }
        proof {
            if attempts < count {
                lemma_first_enabled_is(count, wrap, en, start as nat, dir, 1, count, (attempts + 1) as nat);
            } else {
                assert forall|k: nat| 1 <= k <= count implies !#[trigger] enabled_at(en, steps_spec(count, wrap, start as nat, dir, k)) by {
                }
            }
        }
        if attempts >= self.ring.count() {
            self.ring.set_focused(start);
        }
        self.ring.focused()
    }

    /// From the current position, skip to the nearest enabled
    /// item in the given direction.
    fn skip_to_enabled(&mut self, dir: FocusDir) -> (r: usize)
        requires
            old(self).wf(),
            old(self).ring_spec().count_spec() > 0,
        ensures
            final(self).wf(),
            final(self).enabled_spec() == old(self).enabled_spec(),
            final(self).active_spec() == old(self).active_spec(),
            final(self).ring_spec().count_spec() == old(self).ring_spec().count_spec(),
            final(self).ring_spec().wrap_spec() == old(self).ring_spec().wrap_spec(),
            final(self).ring_spec().focused_spec() == old(self).skip_to_enabled_spec(
                old(self).ring_spec().focused_spec(),
                dir,
            ),
            r == final(self).ring_spec().focused_spec(),
    {
        let ghost count = self.ring.count_spec();
        let ghost wrap = self.ring.wrap;
        let ghost en = self.enabled@;
        let ghost act = self.active;
        let start = self.ring.focused();
        if self.is_enabled(self.ring.focused()) {
            proof {
                lemma_first_enabled_is(count, wrap, en, start as nat, dir, 0, (count - 1) as nat, 0);
            }
            return self.ring.focused();
        }
        let mut attempts: usize = 0;
        while !self.is_enabled(self.ring.focused()) && attempts < self.ring.count()
            invariant
                self.ring.wf(),
                self.ring.count_spec() == count,
                self.ring.wrap == wrap,
                self.enabled@ == en,
                self.active == act,
                attempts <= count,
                start < count || count == 0,
                self.ring.focused_spec() == steps_spec(count, wrap, start as nat, dir, attempts as nat),
                forall|j: nat|
                    j < attempts ==> !enabled_at(en, #[trigger] steps_spec(count, wrap, start as nat, dir, j)),
                !enabled_at(en, start as nat),
            decreases count - attempts,
        {
            self.ring.move_focus(dir);
            attempts = attempts + 1;
        }
        proof {
            if attempts < count {
                lemma_first_enabled_is(count, wrap, en, start as nat, dir, 0, (count - 1) as nat, attempts as nat);
            } else {
                assert forall|k: nat| 0 <= k <= (count - 1) as nat implies !#[trigger] enabled_at(en, steps_spec(count, wrap, start as nat, dir, k)) by {
                }
            }
        }
        if attempts >= self.ring.count() {
            self.ring.set_focused(start);
        }
        self.ring.focused()
    }

    /// Set focus to a specific index (must be enabled).
    pub fn set_focused(&mut self, index: usize)
        requires
            old(self).wf(),
        ensures
            final(self).wf(),
            final(self).enabled_spec() == old(self).enabled_spec(),
            final(self).ring_spec().count_spec() == old(self).ring_spec().count_spec(),
            final(self).ring_spec().wrap_spec() == old(self).ring_spec().wrap_spec(),
            enabled_at(old(self).enabled_spec(), index as nat) ==> {
                &&& final(self).active_spec()
                &&& final(self).ring_spec().focused_spec() == (if old(
                    self,
                ).ring_spec().count_spec() > 0 {
                    if index < old(self).ring_spec().count_spec() {
                        index as nat
                    } else {
                        (old(self).ring_spec().count_spec() - 1) as nat
                    }
                } else {
                    old(self).ring_spec().focused_spec()
                })
            },
            !enabled_at(old(self).enabled_spec(), index as nat) ==> {
                &&& final(self).active_spec() == old(self).active_spec()
                &&& final(self).ring_spec() == old(self).ring_spec()
            },
    {
        if index < self.enabled.len() && self.enabled[index] {
            self.ring.set_focused(index);
            self.active = true;
        }
    }

    /// Deactivate keyboard focus (no visible indicator).
    pub fn deactivate(&mut self)
        ensures
            final(self).ring_spec() == old(self).ring_spec(),
            final(self).enabled_spec() == old(self).enabled_spec(),
            !final(self).active_spec(),
    {
        self.active = false;
    }
}


// ── Spatial / keyboard-only navigation ──────────────────────────

/// Direction for spatial and sequential focus navigation.
#[derive(Debug, Clone, Copy, PartialEq, Eq, Structural)]
pub enum FocusDirection {
    /// Move to the next item in tab order.
    Next,
    /// Move to the previous item in tab order.
    Previous,
    /// Move focus upward (spatial).
    Up,
    /// Move focus downward (spatial).
    Down,
    /// Move focus leftward (spatial).
    Left,
    /// Move focus rightward (spatial).
    Right,
}

/// Axis-aligned rectangle for focus hit-testing and spatial
/// navigation.
#[derive(Debug, Clone, Copy, PartialEq, Eq, Structural)]
pub struct Rect {
    /// Left edge.
    pub x: i32,
    /// Top edge.
    pub y: i32,
    /// Width in pixels.
    pub w: u32,
    /// Height in pixels.
    pub h: u32,
}

/// Horizontal centre of a rectangle (saturating).
pub open spec fn rect_cx(r: Rect) -> int {
    sat_i32(r.x + trunc_div(as_i32(r.w), 2))
}

/// Vertical centre of a rectangle (saturating).
pub open spec fn rect_cy(r: Rect) -> int {
    sat_i32(r.y + trunc_div(as_i32(r.h), 2))
}

impl Rect {
    /// Create a new rectangle.
    pub fn new(x: i32, y: i32, w: u32, h: u32) -> (r: Self)
        ensures
            r == (Rect { x, y, w, h }),
    {
        Rect { x, y, w, h }
    }

    /// Horizontal centre.
    pub fn cx(&self) -> (r: i32)
        ensures
            r == rect_cx(*self),
    {
        let half = to_i32(self.w) / 2;
        sat_add_i32(self.x, half)
    }

    /// Vertical centre.
    pub fn cy(&self) -> (r: i32)
        ensures
            r == rect_cy(*self),
    {
        let half = to_i32(self.h) / 2;
        sat_add_i32(self.y, half)
    }
}

/// A focusable UI element registered with [`SpatialFocusManager`].
#[derive(Debug, Clone)]
pub struct FocusableItem {
    /// Unique identifier for this item.
    pub id: String,
    /// Tab order index. Lower values receive focus first.
    /// Negative values are skipped during sequential navigation.
    pub tab_index: i32,
    /// Bounding rectangle (screen coordinates).
    pub bounds: Rect,
}

/// Result of processing an input event through the focus system.
#[derive(Debug, Clone, Copy, PartialEq, Eq, Structural)]
pub enum FocusEvent {
    /// Focus moved to a new item (index into the items list).
    Moved(usize),
    /// The currently focused item should be activated.
    Activate,
    /// No focus-relevant action occurred.
    NoAction,
}

/// Item `i` takes part in sequential (tab) navigation.
pub open spec fn tab_eligible(items: Seq<FocusableItem>, i: int) -> bool {
    0 <= i < items.len() && items[i].tab_index >= 0
}

/// Index `i` occurs in the sequence `order`.
pub open spec fn in_order(order: Seq<usize>, i: int) -> bool {
    exists|q: int| 0 <= q < order.len() && order[q] as int == i
}

/// Item `a` comes before item `b` in tab order: by tab index, then by
/// registration order.
pub open spec fn tab_before(items: Seq<FocusableItem>, a: int, b: int) -> bool {
    items[a].tab_index < items[b].tab_index || (items[a].tab_index == items[b].tab_index && a < b)
}

/// Some item takes part in tab navigation.
pub open spec fn has_tab_items(items: Seq<FocusableItem>) -> bool {
    exists|i: int| tab_eligible(items, i)
}

/// `j` is the first item in tab order.
pub open spec fn tab_first(items: Seq<FocusableItem>, j: int) -> bool {
    tab_eligible(items, j) && forall|k: int|
        #![trigger tab_eligible(items, k)]
        tab_eligible(items, k) && k != j ==> tab_before(items, j, k)
}

/// `j` is the last item in tab order.
pub open spec fn tab_last(items: Seq<FocusableItem>, j: int) -> bool {
    tab_eligible(items, j) && forall|k: int|
        #![trigger tab_eligible(items, k)]
        tab_eligible(items, k) && k != j ==> tab_before(items, k, j)
}

/// Some item comes after `cur` in tab order.
pub open spec fn has_tab_after(items: Seq<FocusableItem>, cur: int) -> bool {
    exists|k: int| #[trigger] tab_eligible(items, k) && tab_before(items, cur, k)
}

/// Some item comes before `cur` in tab order.
pub open spec fn has_tab_before(items: Seq<FocusableItem>, cur: int) -> bool {
    exists|k: int| #[trigger] tab_eligible(items, k) && tab_before(items, k, cur)
}

/// `j` directly follows `cur` in tab order.
pub open spec fn tab_succ(items: Seq<FocusableItem>, cur: int, j: int) -> bool {
    &&& tab_eligible(items, j)
    &&& tab_before(items, cur, j)
    &&& forall|k: int|
        #![trigger tab_eligible(items, k)]
        tab_eligible(items, k) && tab_before(items, cur, k) && k != j ==> tab_before(items, j, k)
}

/// `j` directly precedes `cur` in tab order.
pub open spec fn tab_pred(items: Seq<FocusableItem>, cur: int, j: int) -> bool {
    &&& tab_eligible(items, j)
    &&& tab_before(items, j, cur)
    &&& forall|k: int|
        #![trigger tab_eligible(items, k)]
        tab_eligible(items, k) && tab_before(items, k, cur) && k != j ==> tab_before(items, k, j)
}

/// `j` is where Tab moves focus from `focused`: the next item in tab order,
/// wrapping to the first (also when nothing, or an item outside the tab
/// order, is focused).
pub open spec fn tab_next_ok(items: Seq<FocusableItem>, focused: Option<usize>, j: int) -> bool {
    match focused {
        Some(cur) => if tab_eligible(items, cur as int) && has_tab_after(items, cur as int) {
            tab_succ(items, cur as int, j)
        } else {
            tab_first(items, j)
        },
        None => tab_first(items, j),
    }
}

/// `j` is where Shift+Tab moves focus from `focused`: the previous item in
/// tab order, wrapping to the last.
pub open spec fn tab_prev_ok(items: Seq<FocusableItem>, focused: Option<usize>, j: int) -> bool {
    match focused {
        Some(cur) => if tab_eligible(items, cur as int) && has_tab_before(items, cur as int) {
            tab_pred(items, cur as int, j)
        } else {
            tab_last(items, j)
        },
        None => tab_last(items, j),
    }
}

/// Horizontal distance between the centres of items `cur` and `i`.
pub open spec fn center_dx(items: Seq<FocusableItem>, cur: int, i: int) -> int {
    rect_cx(items[i].bounds) - rect_cx(items[cur].bounds)
}

/// Vertical distance between the centres of items `cur` and `i`.
pub open spec fn center_dy(items: Seq<FocusableItem>, cur: int, i: int) -> int {
    rect_cy(items[i].bounds) - rect_cy(items[cur].bounds)
}

/// Absolute value.
pub open spec fn abs(v: int) -> int {
    if v < 0 {
        -v
    } else {
        v
    }
}

/// Item `i` lies in direction `dir` from item `cur`.
pub open spec fn spatial_candidate(
    items: Seq<FocusableItem>,
    cur: int,
    dir: FocusDirection,
    i: int,
) -> bool {
    &&& 0 <= i < items.len()
    &&& i != cur
    &&& match dir {
        FocusDirection::Up => center_dy(items, cur, i) < 0,
        FocusDirection::Down => center_dy(items, cur, i) > 0,
        FocusDirection::Left => center_dx(items, cur, i) < 0,
        FocusDirection::Right => center_dx(items, cur, i) > 0,
        _ => false,
    }
}

/// Distance from `cur` to `i` for a move in direction `dir`: the
/// perpendicular axis weighs three times as much as the main axis.
pub open spec fn spatial_cost(items: Seq<FocusableItem>, cur: int, dir: FocusDirection, i: int) -> int {
    let dx = abs(center_dx(items, cur, i));
    let dy = abs(center_dy(items, cur, i));
    match dir {
        FocusDirection::Up | FocusDirection::Down => dy + dx * 3,
        FocusDirection::Left | FocusDirection::Right => dx + dy * 3,
        _ => dx + dy,
    }
}

/// Some item lies in direction `dir` from `cur`.
pub open spec fn has_spatial_candidate(items: Seq<FocusableItem>, cur: int, dir: FocusDirection) -> bool {
    exists|i: int| spatial_candidate(items, cur, dir, i)
}

/// `j` is the cheapest candidate in direction `dir` from `cur`, the one
/// registered first among equally cheap ones.
pub open spec fn spatial_best(items: Seq<FocusableItem>, cur: int, dir: FocusDirection, j: int) -> bool {
    &&& spatial_candidate(items, cur, dir, j)
    &&& forall|i: int|
        #![trigger spatial_candidate(items, cur, dir, i)]
        spatial_candidate(items, cur, dir, i) ==> spatial_cost(items, cur, dir, j) <= spatial_cost(
            items,
            cur,
            dir,
            i,
        ) && (i < j ==> spatial_cost(items, cur, dir, j) < spatial_cost(items, cur, dir, i))
}

/// `j` is where an arrow key moves focus from `focused`: the best
/// candidate in that direction, staying put when there is none (item 0
/// when nothing is focused).
pub open spec fn spatial_ok(items: Seq<FocusableItem>, focused: Option<usize>, dir: FocusDirection, j: int) -> bool {
    match focused {
        None => j == 0,
        Some(cur) => if has_spatial_candidate(items, cur as int, dir) {
            spatial_best(items, cur as int, dir, j)
        } else {
            j == cur
        },
    }
}

/// Manages keyboard-only navigation over a set of spatially-placed
/// focusable items, with tab-index ordering and arrow-key spatial
/// movement.
///
/// Tracks whether the focus ring should be visible (keyboard mode)
/// or hidden (mouse mode).
#[derive(Debug, Clone)]
pub struct SpatialFocusManager {
    items: Vec<FocusableItem>,
    /// Index into `items` of the currently focused element, or
    /// `None` if nothing is focused.
    focused: Option<usize>,
    /// `true` when the last interaction was keyboard-driven,
    /// meaning the focus ring indicator should be drawn.
    ring_visible: bool,
    /// Whether shift is held (for Shift+Tab detection).
    shift_held: bool,
}

impl SpatialFocusManager {
    /// The focused index, when there is one, names a registered item.
    pub open spec fn wf(&self) -> bool {
        self.focused_spec() matches Some(i) ==> i < self.items_spec().len()
    }

    /// The registered items.
    pub closed spec fn items_spec(&self) -> Seq<FocusableItem> {
        self.items@
    }

    /// The focused index.
    pub closed spec fn focused_spec(&self) -> Option<usize> {
        self.focused
    }

    /// Whether the focus ring is shown.
    pub closed spec fn ring_visible_spec(&self) -> bool {
        self.ring_visible
    }

    /// Whether Shift (Select) is held.
    pub closed spec fn shift_held_spec(&self) -> bool {
        self.shift_held
    }

    /// Create an empty spatial focus manager.
    pub fn new() -> (r: Self)
        ensures
            r.wf(),
            r.items_spec() == Seq::<FocusableItem>::empty(),
            r.focused_spec() is None,
            !r.ring_visible_spec(),
            !r.shift_held_spec(),
    {
        SpatialFocusManager { items: Vec::new(), focused: None, ring_visible: false, shift_held: false }
    }

    /// Register a focusable item. Returns its index.
    pub fn add_item(&mut self, item: FocusableItem) -> (r: usize)
        requires
            old(self).items_spec().len() < usize::MAX,
            old(self).wf(),
        ensures
            final(self).wf(),
            r == old(self).items_spec().len(),
            final(self).items_spec() == old(self).items_spec().push(item),
            final(self).focused_spec() == old(self).focused_spec(),
            final(self).ring_visible_spec() == old(self).ring_visible_spec(),
            final(self).shift_held_spec() == old(self).shift_held_spec(),
    {
        let idx = self.items.len();
        self.items.push(item);
        idx
    }

    /// Replace all items at once.
    ///
    /// A focus index past the new end moves to the last item (or is cleared
    /// when there are no items).
    pub fn set_items(&mut self, items: Vec<FocusableItem>)
        requires
            old(self).wf(),
        ensures
            final(self).wf(),
            final(self).items_spec() == items@,
            final(self).ring_visible_spec() == old(self).ring_visible_spec(),
            final(self).shift_held_spec() == old(self).shift_held_spec(),
            final(self).focused_spec() == (match old(self).focused_spec() {
                Some(idx) => if idx >= items@.len() {
                    if items@.len() == 0 {
                        None
                    } else {
                        Some((items@.len() - 1) as usize)
                    }
                } else {
                    Some(idx)
                },
                None => None,
            }),
    {
        let n = items.len();
        let focused = match self.focused {
            Some(idx) => if idx >= n {
                if n == 0 {
                    None
                } else {
                    Some(n - 1)
                }
            } else {
                Some(idx)
            },
            None => None,
        };
        let ring_visible = self.ring_visible;
        let shift_held = self.shift_held;
        *self = SpatialFocusManager { items, focused, ring_visible, shift_held };
    }

    /// Number of registered items.
    pub fn item_count(&self) -> (r: usize)
        ensures
            r == self.items_spec().len(),
    {
        self.items.len()
    }

    /// Currently focused index (if any).
    pub fn focused_index(&self) -> (r: Option<usize>)
        ensures
            r == self.focused_spec(),
    {
        self.focused
    }

    /// Currently focused item (if any).
    pub fn focused_item(&self) -> (r: Option<&FocusableItem>)
        requires
            self.wf(),
        ensures
            r == (match self.focused_spec() {
                Some(i) => Some(&self.items_spec()[i as int]),
                None => None,
            }),
    {
        match self.focused {
            Some(i) => Some(&self.items[i]),
            None => None,
        }
    }

    /// Whether the focus ring indicator should be rendered.
    ///
    /// Returns `true` after keyboard navigation, `false` after
    /// mouse/pointer interaction.
    pub fn focus_ring_visible(&self) -> (r: bool)
        ensures
            r == self.ring_visible_spec(),
    {
        self.ring_visible
    }

    /// Mark the focus ring as hidden (e.g. after mouse click).
    pub fn hide_focus_ring(&mut self)
        requires
            old(self).wf(),
        ensures
            final(self).wf(),
            final(self).items_spec() == old(self).items_spec(),
            final(self).focused_spec() == old(self).focused_spec(),
            final(self).shift_held_spec() == old(self).shift_held_spec(),
            !final(self).ring_visible_spec(),
    {
        self.ring_visible = false;
    }

    /// Mark the focus ring as visible (e.g. after Tab press).
    pub fn show_focus_ring(&mut self)
        requires
            old(self).wf(),
        ensures
            final(self).wf(),
            final(self).items_spec() == old(self).items_spec(),
            final(self).focused_spec() == old(self).focused_spec(),
            final(self).shift_held_spec() == old(self).shift_held_spec(),
            final(self).ring_visible_spec(),
    {
        self.ring_visible = true;
    }

    /// `j` is the index that navigating in `direction` focuses.
    pub open spec fn navigate_ok(&self, direction: FocusDirection, j: int) -> bool {
        match direction {
            FocusDirection::Next => tab_next_ok(self.items_spec(), self.focused_spec(), j),
            FocusDirection::Previous => tab_prev_ok(self.items_spec(), self.focused_spec(), j),
            _ => spatial_ok(self.items_spec(), self.focused_spec(), direction, j),
        }
    }

    /// Whether navigating in `direction` moves focus at all (sequential
    /// navigation needs an item in the tab order).
    pub open spec fn navigate_moves(&self, direction: FocusDirection) -> bool {
        match direction {
            FocusDirection::Next | FocusDirection::Previous => has_tab_items(self.items_spec()),
            _ => true,
        }
    }

    /// Move focus in the given direction.
    ///
    /// `Next`/`Previous` follow tab-index order.
    /// `Up`/`Down`/`Left`/`Right` use spatial proximity.
    ///
    /// Returns the new focused index, or `None` if no items exist.
    pub fn navigate(&mut self, direction: FocusDirection) -> (r: Option<usize>)
        requires
            old(self).wf(),
        ensures
            final(self).wf(),
            final(self).items_spec() == old(self).items_spec(),
            final(self).shift_held_spec() == old(self).shift_held_spec(),
            old(self).items_spec().len() == 0 ==> {
                &&& r is None
                &&& final(self).focused_spec() == old(self).focused_spec()
                &&& final(self).ring_visible_spec() == old(self).ring_visible_spec()
            },
            old(self).items_spec().len() > 0 ==> {
                &&& final(self).ring_visible_spec()
                &&& r == final(self).focused_spec()
                &&& if old(self).navigate_moves(direction) {
                    final(self).focused_spec() matches Some(j) && old(self).navigate_ok(
                        direction,
                        j as int,
                    )
                } else {
                    final(self).focused_spec() == old(self).focused_spec()
                }
            },
    {
        if self.items.len() == 0 {
            return None;
        }
        self.ring_visible = true;
        let new_idx = match direction {
            FocusDirection::Next => self.next_tab_index(),
            FocusDirection::Previous => self.prev_tab_index(),
            FocusDirection::Up | FocusDirection::Down | FocusDirection::Left
            | FocusDirection::Right => Some(self.spatial_move(direction)),
        };
        match new_idx {
            Some(idx) => {
                self.focused = Some(idx);
            },
            None => {},
        }
        self.focused
    }

    /// Process an input event and return what happened.
    ///
    /// Handles Tab, Shift+Tab, arrow keys, Confirm, Select (held as
    /// Shift), and pointer events (which hide the focus ring).
    pub fn handle_input(&mut self, event: &InputEvent) -> (r: FocusEvent)
        requires
            old(self).wf(),
        ensures
            final(self).wf(),
            final(self).items_spec() == old(self).items_spec(),
            match *event {
                InputEvent::TextInput(c) if c == '\t' => {
                    let dir = if old(self).shift_held_spec() {
                        FocusDirection::Previous
                    } else {
                        FocusDirection::Next
                    };
                    &&& final(self).shift_held_spec() == old(self).shift_held_spec()
                    &&& old(self).nav_outcome(dir, *final(self), r)
                },
                InputEvent::ButtonPress(Button::Up) => old(self).nav_outcome(FocusDirection::Up, *final(self), r)
                    && final(self).shift_held_spec() == old(self).shift_held_spec(),
                InputEvent::ButtonPress(Button::Down) => old(self).nav_outcome(FocusDirection::Down, *final(self), r)
                    && final(self).shift_held_spec() == old(self).shift_held_spec(),
                InputEvent::ButtonPress(Button::Left) => old(self).nav_outcome(FocusDirection::Left, *final(self), r)
                    && final(self).shift_held_spec() == old(self).shift_held_spec(),
                InputEvent::ButtonPress(Button::Right) => old(self).nav_outcome(FocusDirection::Right, *final(self), r)
                    && final(self).shift_held_spec() == old(self).shift_held_spec(),
                InputEvent::ButtonPress(Button::Confirm) => {
                    &&& final(self).focused_spec() == old(self).focused_spec()
                    &&& final(self).shift_held_spec() == old(self).shift_held_spec()
                    &&& if old(self).focused_spec() is Some {
                        r == FocusEvent::Activate && final(self).ring_visible_spec()
                    } else {
                        r == FocusEvent::NoAction && final(self).ring_visible_spec()
                            == old(self).ring_visible_spec()
                    }
                },
                InputEvent::ButtonPress(Button::Select) => {
                    &&& r == FocusEvent::NoAction
                    &&& final(self).shift_held_spec()
                    &&& final(self).focused_spec() == old(self).focused_spec()
                    &&& final(self).ring_visible_spec() == old(self).ring_visible_spec()
                },
                InputEvent::ButtonRelease(Button::Select) => {
                    &&& r == FocusEvent::NoAction
                    &&& !final(self).shift_held_spec()
                    &&& final(self).focused_spec() == old(self).focused_spec()
                    &&& final(self).ring_visible_spec() == old(self).ring_visible_spec()
                },
                InputEvent::PointerClick { .. } | InputEvent::CursorMove { .. } => {
                    &&& r == FocusEvent::NoAction
                    &&& !final(self).ring_visible_spec()
                    &&& final(self).focused_spec() == old(self).focused_spec()
                    &&& final(self).shift_held_spec() == old(self).shift_held_spec()
                },
                _ => {
                    &&& r == FocusEvent::NoAction
                    &&& final(self).focused_spec() == old(self).focused_spec()
                    &&& final(self).ring_visible_spec() == old(self).ring_visible_spec()
                    &&& final(self).shift_held_spec() == old(self).shift_held_spec()
                },
            },
    {
        match *event {
            InputEvent::TextInput(c) => {
                if c == '\t' {
                    if self.shift_held {
                        self.nav_event(FocusDirection::Previous)
                    } else {
                        self.nav_event(FocusDirection::Next)
                    }
                } else {
                    FocusEvent::NoAction
                }
            },
            InputEvent::ButtonPress(Button::Up) => self.nav_event(FocusDirection::Up),
            InputEvent::ButtonPress(Button::Down) => self.nav_event(FocusDirection::Down),
            InputEvent::ButtonPress(Button::Left) => self.nav_event(FocusDirection::Left),
            InputEvent::ButtonPress(Button::Right) => self.nav_event(FocusDirection::Right),
            InputEvent::ButtonPress(Button::Confirm) => {
                if self.focused.is_some() {
                    self.ring_visible = true;
                    FocusEvent::Activate
                } else {
                    FocusEvent::NoAction
                }
            },
            InputEvent::ButtonPress(Button::Select) => {
                self.shift_held = true;
                FocusEvent::NoAction
            },
            InputEvent::ButtonRelease(Button::Select) => {
                self.shift_held = false;
                FocusEvent::NoAction
            },
            InputEvent::PointerClick { .. } | InputEvent::CursorMove { .. } => {
                self.ring_visible = false;
                FocusEvent::NoAction
            },
            _ => FocusEvent::NoAction,
        }
    }

    /// The state `after` and event `r` are a possible outcome of navigating
    /// from `self` in direction `dir` and reporting it as an event.
    pub open spec fn nav_outcome(&self, dir: FocusDirection, after: Self, r: FocusEvent) -> bool {
        &&& after.items_spec() == self.items_spec()
        &&& self.items_spec().len() == 0 ==> {
            &&& r == FocusEvent::NoAction
            &&& after.focused_spec() == self.focused_spec()
            &&& after.ring_visible_spec() == self.ring_visible_spec()
        }
        &&& self.items_spec().len() > 0 ==> {
            &&& after.ring_visible_spec()
            &&& r == (match after.focused_spec() {
                Some(idx) => FocusEvent::Moved(idx),
                None => FocusEvent::NoAction,
            })
            &&& if self.navigate_moves(dir) {
                after.focused_spec() matches Some(j) && self.navigate_ok(dir, j as int)
            } else {
                after.focused_spec() == self.focused_spec()
            }
        }
    }

    /// Set focus to a specific index directly (ignored when out of range).
    pub fn set_focused(&mut self, index: usize)
        requires
            old(self).wf(),
        ensures
            final(self).wf(),
            final(self).items_spec() == old(self).items_spec(),
            final(self).ring_visible_spec() == old(self).ring_visible_spec(),
            final(self).shift_held_spec() == old(self).shift_held_spec(),
            final(self).focused_spec() == (if index < old(self).items_spec().len() {
                Some(index)
            } else {
                old(self).focused_spec()
            }),
    {
        if index < self.items.len() {
            self.focused = Some(index);
        }
    }

    /// Clear focus entirely.
    pub fn clear_focus(&mut self)
        requires
            old(self).wf(),
        ensures
            final(self).wf(),
            final(self).items_spec() == old(self).items_spec(),
            final(self).ring_visible_spec() == old(self).ring_visible_spec(),
            final(self).shift_held_spec() == old(self).shift_held_spec(),
            final(self).focused_spec() is None,
    {
        self.focused = None;
    }

    // ── Internal helpers ────────────────────────────────────────

    fn nav_event(&mut self, dir: FocusDirection) -> (r: FocusEvent)
        requires
            old(self).wf(),
        ensures
            final(self).wf(),
            final(self).shift_held_spec() == old(self).shift_held_spec(),
            old(self).nav_outcome(dir, *final(self), r),
    {
        match self.navigate(dir) {
            Some(idx) => FocusEvent::Moved(idx),
            None => FocusEvent::NoAction,
        }
    }

    /// Items in tab order: indices with a non-negative tab index, sorted by
    /// tab index and then by registration order.
    pub fn tab_order(&self) -> (r: Vec<usize>)
        ensures
            forall|k: int| 0 <= k < r@.len() ==> tab_eligible(self.items_spec(), #[trigger] r@[k] as int),
            forall|i: int| tab_eligible(self.items_spec(), i) ==> in_order(r@, i),
            forall|a: int, b: int|
                0 <= a < b < r@.len() ==> tab_before(self.items_spec(), #[trigger] r@[a] as int, #[trigger] r@[b] as int),
    {
        let n = self.items.len();
        let ghost items = self.items@;
        let mut order: Vec<usize> = Vec::new();
        let mut i: usize = 0;
        while i < n
            invariant
                n == items.len(),
                items == self.items@,
                i <= n,
                forall|k: int| 0 <= k < order@.len() ==> tab_eligible(items, #[trigger] order@[k] as int),
                forall|k: int| 0 <= k < order@.len() ==> #[trigger] order@[k] < i,
                forall|j: int| 0 <= j < i && tab_eligible(items, j) ==> in_order(order@, j),
                forall|a: int, b: int|
                    0 <= a < b < order@.len() ==> tab_before(items, #[trigger] order@[a] as int, #[trigger] order@[b] as int),
            decreases n - i,
        {
            if self.items[i].tab_index >= 0 {
                let t = self.items[i].tab_index;
                let mut p: usize = 0;
                while p < order.len() && self.items[order[p]].tab_index <= t
                    invariant
                        n == items.len(),
                        items == self.items@,
                        i < n,
                        t == items[i as int].tab_index,
                        p <= order@.len(),
                        forall|k: int| 0 <= k < order@.len() ==> #[trigger] order@[k] < i,
                        forall|k: int| 0 <= k < p ==> items[#[trigger] order@[k] as int].tab_index <= t,
                    decreases order@.len() - p,
                {
                    p = p + 1;
                }
                let ghost old_order = order@;
                order.insert(p, i);
                proof {
                    assert(order@ == old_order.take(p as int).push(i).add(old_order.skip(p as int)));
                    assert forall|a: int, b: int|
                        0 <= a < b < order@.len() implies tab_before(items, #[trigger] order@[a] as int, #[trigger] order@[b] as int) by {
                        if b < p {
                            assert(order@[a] == old_order[a] && order@[b] == old_order[b]);
                        } else if b == p {
                            assert(order@[a] == old_order[a]);
                        } else if a == p {
                            assert(order@[b] == old_order[b - 1]);
                            assert(items[old_order[b - 1] as int].tab_index > t) by {
                                if b - 1 > p {
                                    assert(tab_before(items, old_order[p as int] as int, old_order[b - 1] as int));
                                }
                            }
                        } else if a < p {
                            assert(order@[a] == old_order[a] && order@[b] == old_order[b - 1]);
                        } else {
                            assert(order@[a] == old_order[a - 1] && order@[b] == old_order[b - 1]);
                        }
                    }
                    assert forall|j: int| 0 <= j < i + 1 && tab_eligible(items, j) implies in_order(order@, j) by {
                        if j == i {
                            assert(order@[p as int] as int == j);
                        } else {
                            assert(in_order(old_order, j));
                            let q = choose|q: int| 0 <= q < old_order.len() && old_order[q] as int == j;
                            if q < p {
                                assert(order@[q] as int == j);
                            } else {
                                assert(order@[q + 1] as int == j);
                            }
                        }
                    }
                    assert forall|k: int| 0 <= k < order@.len() implies tab_eligible(items, #[trigger] order@[k] as int) by {
                        if k < p {
                            assert(order@[k] == old_order[k]);
                        } else if k > p {
                            assert(order@[k] == old_order[k - 1]);
                        }
                    }
                    assert forall|k: int| 0 <= k < order@.len() implies #[trigger] order@[k] < i + 1 by {
                        if k < p {
                            assert(order@[k] == old_order[k]);
                        } else if k > p {
                            assert(order@[k] == old_order[k - 1]);
                        }
                    }
                }
            }
            i = i + 1;
        }
        order
    }

    fn position_of(order: &Vec<usize>, cur: usize) -> (r: Option<usize>)
        ensures
            match r {
                Some(p) => p < order@.len() && order@[p as int] == cur,
                None => !in_order(order@, cur as int),
            },
    {
        let mut p: usize = 0;
        while p < order.len()
            invariant
                p <= order@.len(),
                forall|k: int| 0 <= k < p ==> order@[k] != cur,
            decreases order@.len() - p,
        {
            if order[p] == cur {
                return Some(p);
            }
            p = p + 1;
        }
        None
    }

    fn next_tab_index(&self) -> (r: Option<usize>)
        requires
            self.focused_spec() matches Some(i) ==> i < self.items_spec().len(),
        ensures
            r is Some <==> has_tab_items(self.items_spec()),
            r matches Some(j) ==> tab_next_ok(self.items_spec(), self.focused_spec(), j as int),
    {
        let order = self.tab_order();
        let ghost items = self.items@;
        if order.len() == 0 {
            proof {
                assert forall|i: int| !tab_eligible(items, i) by {
                    if tab_eligible(items, i) {
                        assert(in_order(order@, i));
                    }
                }
            }
            return None;
        }
        proof {
            lemma_order_first(items, order@);
            assert(tab_eligible(items, order@[0] as int));
        }
        let j = match self.focused {
            Some(cur) => match Self::position_of(&order, cur) {
                Some(pos) => {
                    if pos + 1 < order.len() {
                        proof {
                            lemma_order_succ(items, order@, pos as int);
                        }
                        order[pos + 1]
                    } else {
                        proof {
                            lemma_order_no_after(items, order@, pos as int);
                        }
                        order[0]
                    }
                },
                None => {
                    proof {
                        if tab_eligible(items, cur as int) {
                            assert(in_order(order@, cur as int));
                        }
                    }
                    order[0]
                },
            },
            None => order[0],
        };
        Some(j)
    }

    fn prev_tab_index(&self) -> (r: Option<usize>)
        requires
            self.focused_spec() matches Some(i) ==> i < self.items_spec().len(),
        ensures
            r is Some <==> has_tab_items(self.items_spec()),
            r matches Some(j) ==> tab_prev_ok(self.items_spec(), self.focused_spec(), j as int),
    {
        let order = self.tab_order();
        let ghost items = self.items@;
        if order.len() == 0 {
            proof {
                assert forall|i: int| !tab_eligible(items, i) by {
                    if tab_eligible(items, i) {
                        assert(in_order(order@, i));
                    }
                }
            }
            return None;
        }
        let last = order.len() - 1;
        proof {
            lemma_order_last(items, order@);
            assert(tab_eligible(items, order@[last as int] as int));
        }
        let j = match self.focused {
            Some(cur) => match Self::position_of(&order, cur) {
                Some(pos) => {
                    if pos == 0 {
                        proof {
                            lemma_order_no_before(items, order@, pos as int);
                        }
                        order[last]
                    } else {
                        proof {
                            lemma_order_pred(items, order@, pos as int);
                        }
                        order[pos - 1]
                    }
                },
                None => {
                    proof {
                        if tab_eligible(items, cur as int) {
                            assert(in_order(order@, cur as int));
                        }
                    }
                    order[last]
                },
            },
            None => order[last],
        };
        Some(j)
    }

    fn spatial_move(&self, dir: FocusDirection) -> (r: usize)
        requires
            self.focused_spec() matches Some(i) ==> i < self.items_spec().len(),
            dir != FocusDirection::Next,
            dir != FocusDirection::Previous,
        ensures
            spatial_ok(self.items_spec(), self.focused_spec(), dir, r as int),
    {
        let cur = match self.focused {
            Some(i) => i,
            None => return 0,
        };
        let ghost items = self.items@;
        let cx = self.items[cur].bounds.cx();
        let cy = self.items[cur].bounds.cy();
        let mut best: Option<(i64, usize)> = None;
        let n = self.items.len();
        let mut i: usize = 0;
        while i < n
            invariant
                n == items.len(),
                items == self.items@,
                cur < n,
                cx == rect_cx(items[cur as int].bounds),
                cy == rect_cy(items[cur as int].bounds),
                i <= n,
                dir != FocusDirection::Next,
                dir != FocusDirection::Previous,
                match best {
                    None => forall|k: int| 0 <= k < i ==> !spatial_candidate(items, cur as int, dir, k),
                    Some((c, b)) => {
                        &&& b < i
                        &&& spatial_candidate(items, cur as int, dir, b as int)
                        &&& c == spatial_cost(items, cur as int, dir, b as int)
                        &&& forall|k: int|
                            0 <= k < i && spatial_candidate(items, cur as int, dir, k) ==> c
                                <= spatial_cost(items, cur as int, dir, k) && (k < b ==> c < spatial_cost(
                                items,
                                cur as int,
                                dir,
                                k,
                            ))
                    },
                },
            decreases n - i,
        {
            if i != cur {
                let ix = self.items[i].bounds.cx();
                let iy = self.items[i].bounds.cy();
                let dx: i64 = ix as i64 - cx as i64;
                let dy: i64 = iy as i64 - cy as i64;
                let valid = match dir {
                    FocusDirection::Up => dy < 0,
                    FocusDirection::Down => dy > 0,
                    FocusDirection::Left => dx < 0,
                    FocusDirection::Right => dx > 0,
                    _ => false,
                };
                if valid {
                    let adx: i64 = if dx < 0 { -dx } else { dx };
                    let ady: i64 = if dy < 0 { -dy } else { dy };
                    let cost: i64 = match dir {
                        FocusDirection::Up | FocusDirection::Down => ady + adx * 3,
                        FocusDirection::Left | FocusDirection::Right => adx + ady * 3,
                        _ => adx + ady,
                    };
                    let better = match best {
                        None => true,
                        Some((c, _)) => cost < c,
                    };
                    if better {
                        best = Some((cost, i));
                    }
                }
            }
            i = i + 1;
        }
        match best {
            None => {
                proof {
                    assert forall|k: int| !spatial_candidate(items, cur as int, dir, k) by {
                        if 0 <= k < n {
                        }
                    }
                }
                cur
            },
            Some((_, b)) => b,
        }
    }
}

impl Default for SpatialFocusManager {
    fn default() -> (r: Self)
        ensures
            r.wf(),
            r.items_spec() == Seq::<FocusableItem>::empty(),
            r.focused_spec() is None,
            !r.ring_visible_spec(),
            !r.shift_held_spec(),
    {
        Self::new()
    }
}

/// In a tab order, `tab_before` is a strict total order on distinct items.
pub proof fn lemma_tab_before_total(items: Seq<FocusableItem>, a: int, b: int)
    requires
        a != b,
    ensures
        tab_before(items, a, b) || tab_before(items, b, a),
        !(tab_before(items, a, b) && tab_before(items, b, a)),
{
}

proof fn lemma_order_first(items: Seq<FocusableItem>, order: Seq<usize>)
    requires
        order.len() > 0,
        forall|k: int| 0 <= k < order.len() ==> tab_eligible(items, #[trigger] order[k] as int),
        forall|i: int| tab_eligible(items, i) ==> in_order(order, i),
        forall|a: int, b: int|
            0 <= a < b < order.len() ==> tab_before(items, #[trigger] order[a] as int, #[trigger] order[b] as int),
    ensures
        tab_first(items, order[0] as int),
{
    assert forall|k: int| #[trigger] tab_eligible(items, k) && k != order[0] as int implies tab_before(items, order[0] as int, k) by {
        assert(in_order(order, k));
        let q = choose|q: int| 0 <= q < order.len() && order[q] as int == k;
        assert(q != 0);
        assert(tab_before(items, order[0] as int, order[q] as int));
    }
}

proof fn lemma_order_last(items: Seq<FocusableItem>, order: Seq<usize>)
    requires
        order.len() > 0,
        forall|k: int| 0 <= k < order.len() ==> tab_eligible(items, #[trigger] order[k] as int),
        forall|i: int| tab_eligible(items, i) ==> in_order(order, i),
        forall|a: int, b: int|
            0 <= a < b < order.len() ==> tab_before(items, #[trigger] order[a] as int, #[trigger] order[b] as int),
    ensures
        tab_last(items, order[order.len() - 1] as int),
{
    let l = order.len() - 1;
    assert forall|k: int| #[trigger] tab_eligible(items, k) && k != order[l] as int implies tab_before(items, k, order[l] as int) by {
        assert(in_order(order, k));
        let q = choose|q: int| 0 <= q < order.len() && order[q] as int == k;
        assert(q != l);
        assert(tab_before(items, order[q] as int, order[l] as int));
    }
}

proof fn lemma_order_succ(items: Seq<FocusableItem>, order: Seq<usize>, pos: int)
    requires
        0 <= pos,
        pos + 1 < order.len(),
        forall|k: int| 0 <= k < order.len() ==> tab_eligible(items, #[trigger] order[k] as int),
        forall|i: int| tab_eligible(items, i) ==> in_order(order, i),
        forall|a: int, b: int|
            0 <= a < b < order.len() ==> tab_before(items, #[trigger] order[a] as int, #[trigger] order[b] as int),
    ensures
        tab_eligible(items, order[pos] as int),
        has_tab_after(items, order[pos] as int),
        tab_succ(items, order[pos] as int, order[pos + 1] as int),
{
    let cur = order[pos] as int;
    let j = order[pos + 1] as int;
    assert(tab_eligible(items, j) && tab_before(items, cur, j));
    assert forall|k: int| #[trigger] tab_eligible(items, k) && tab_before(items, cur, k) && k != j implies tab_before(items, j, k) by {
        assert(in_order(order, k));
        let q = choose|q: int| 0 <= q < order.len() && order[q] as int == k;
        if q <= pos {
            if q < pos {
                assert(tab_before(items, order[q] as int, order[pos] as int));
            }
        } else {
            assert(q != pos + 1);
            assert(tab_before(items, order[pos + 1] as int, order[q] as int));
        }
    }
}

proof fn lemma_order_no_after(items: Seq<FocusableItem>, order: Seq<usize>, pos: int)
    requires
        pos == order.len() - 1,
        0 <= pos,
        forall|k: int| 0 <= k < order.len() ==> tab_eligible(items, #[trigger] order[k] as int),
        forall|i: int| tab_eligible(items, i) ==> in_order(order, i),
        forall|a: int, b: int|
            0 <= a < b < order.len() ==> tab_before(items, #[trigger] order[a] as int, #[trigger] order[b] as int),
    ensures
        !has_tab_after(items, order[pos] as int),
{
    let cur = order[pos] as int;
    assert forall|k: int| #[trigger] tab_eligible(items, k) implies !tab_before(items, cur, k) by {
        assert(in_order(order, k));
        let q = choose|q: int| 0 <= q < order.len() && order[q] as int == k;
        if q < pos {
            assert(tab_before(items, order[q] as int, order[pos] as int));
        }
    }
}

proof fn lemma_order_pred(items: Seq<FocusableItem>, order: Seq<usize>, pos: int)
    requires
        0 < pos < order.len(),
        forall|k: int| 0 <= k < order.len() ==> tab_eligible(items, #[trigger] order[k] as int),
        forall|i: int| tab_eligible(items, i) ==> in_order(order, i),
        forall|a: int, b: int|
            0 <= a < b < order.len() ==> tab_before(items, #[trigger] order[a] as int, #[trigger] order[b] as int),
    ensures
        tab_eligible(items, order[pos] as int),
        has_tab_before(items, order[pos] as int),
        tab_pred(items, order[pos] as int, order[pos - 1] as int),
{
    let cur = order[pos] as int;
    let j = order[pos - 1] as int;
    assert(tab_eligible(items, j) && tab_before(items, j, cur));
    assert forall|k: int| #[trigger] tab_eligible(items, k) && tab_before(items, k, cur) && k != j implies tab_before(items, k, j) by {
        assert(in_order(order, k));
        let q = choose|q: int| 0 <= q < order.len() && order[q] as int == k;
        if q >= pos {
            if q > pos {
                assert(tab_before(items, order[pos] as int, order[q] as int));
            }
        } else {
            assert(q != pos - 1);
            assert(tab_before(items, order[q] as int, order[pos - 1] as int));
        }
    }
}

proof fn lemma_order_no_before(items: Seq<FocusableItem>, order: Seq<usize>, pos: int)
    requires
        pos == 0,
        order.len() > 0,
        forall|k: int| 0 <= k < order.len() ==> tab_eligible(items, #[trigger] order[k] as int),
        forall|i: int| tab_eligible(items, i) ==> in_order(order, i),
        forall|a: int, b: int|
            0 <= a < b < order.len() ==> tab_before(items, #[trigger] order[a] as int, #[trigger] order[b] as int),
    ensures
        !has_tab_before(items, order[pos] as int),
{
    let cur = order[pos] as int;
    assert forall|k: int| #[trigger] tab_eligible(items, k) implies !tab_before(items, k, cur) by {
        assert(in_order(order, k));
        let q = choose|q: int| 0 <= q < order.len() && order[q] as int == k;
        if q > 0 {
            assert(tab_before(items, order[0] as int, order[q] as int));
        }
    }
}

} // verus!
