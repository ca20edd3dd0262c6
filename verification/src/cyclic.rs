//! Facts about cyclic (wrap-around) index walks shared by the list-like
//! widgets.
use vstd::prelude::*;

verus! {

/// The index reached `k` steps after `start` when walking forward through
/// `n` slots with wrap-around.
pub open spec fn cyc_fwd(start: int, k: int, n: int) -> int {
    (start + k) % n
}

/// The index reached `k` steps before `start` when walking backward through
/// `n` slots with wrap-around.
pub open spec fn cyc_back(start: int, k: int, n: int) -> int {
    (start - k) % n
}

/// The least `k` in `lo..=hi` with `p(k)`, if there is one.
pub open spec fn least_in(p: spec_fn(int) -> bool, lo: int, hi: int) -> Option<int> {
    if exists|k: int| lo <= k <= hi && #[trigger] p(k) {
        Some(
            choose|k: int|
                lo <= k <= hi && #[trigger] p(k) && forall|j: int| lo <= j < k ==> !#[trigger] p(j),
        )
    } else {
        None
    }
}

proof fn lemma_least_exists(p: spec_fn(int) -> bool, lo: int, hi: int, k0: int)
    requires
        lo <= k0 <= hi,
        p(k0),
    ensures
        exists|k: int| lo <= k <= hi && #[trigger] p(k) && forall|j: int| lo <= j < k ==> !#[trigger] p(j),
    decreases k0 - lo,
{
    if exists|j: int| lo <= j < k0 && #[trigger] p(j) {
        let j = choose|j: int| lo <= j < k0 && #[trigger] p(j);
        lemma_least_exists(p, lo, hi, j);
    }
}

/// `least_in` is the least witness.
pub proof fn lemma_least_in_is(p: spec_fn(int) -> bool, lo: int, hi: int, k: int)
    requires
        lo <= k <= hi,
        p(k),
        forall|j: int| lo <= j < k ==> !#[trigger] p(j),
    ensures
        least_in(p, lo, hi) == Some(k),
{
    lemma_least_exists(p, lo, hi, k);
    let k2 = choose|k2: int|
        lo <= k2 <= hi && #[trigger] p(k2) && forall|j: int| lo <= j < k2 ==> !#[trigger] p(j);
    if k2 < k {
        assert(!p(k2));
    } else if k < k2 {
        assert(!p(k));
    }
}

/// `least_in` finds a witness whenever one exists.
pub proof fn lemma_least_in_some(p: spec_fn(int) -> bool, lo: int, hi: int, k0: int)
    requires
        lo <= k0 <= hi,
        p(k0),
    ensures
        least_in(p, lo, hi) is Some,
        lo <= least_in(p, lo, hi)->0 <= hi,
        p(least_in(p, lo, hi)->0),
{
    lemma_least_exists(p, lo, hi, k0);
}

/// `least_in` is `None` when no index in range satisfies `p`.
pub proof fn lemma_least_in_none(p: spec_fn(int) -> bool, lo: int, hi: int)
    requires
        forall|j: int| lo <= j <= hi ==> !#[trigger] p(j),
    ensures
        least_in(p, lo, hi) is None,
{
}

/// `least_in` depends only on the predicate's values inside the range.
pub proof fn lemma_least_in_congruent(p: spec_fn(int) -> bool, q: spec_fn(int) -> bool, lo: int, hi: int)
    requires
        forall|k: int| lo <= k <= hi ==> #[trigger] p(k) == q(k),
    ensures
        least_in(p, lo, hi) == least_in(q, lo, hi),
{
    if exists|k: int| lo <= k <= hi && #[trigger] p(k) {
        let k0 = choose|k: int| lo <= k <= hi && #[trigger] p(k);
        lemma_least_exists(p, lo, hi, k0);
        let m = least_in(p, lo, hi)->0;
        assert(lo <= m <= hi && p(m) && forall|j: int| lo <= j < m ==> !#[trigger] p(j));
        assert forall|j: int| lo <= j < m implies !#[trigger] q(j) by {
            assert(!p(j));
        }
        lemma_least_in_is(q, lo, hi, m);
    } else {
        assert forall|j: int| lo <= j <= hi implies !#[trigger] q(j) by {
            assert(!p(j));
        }
        lemma_least_in_none(q, lo, hi);
    }
}

/// Stepping forward or backward by one on a residue.
pub proof fn lemma_mod_step(a: int, n: int, delta: int)
    requires
        n > 0,
        delta == 1 || delta == -1,
    ensures
        ({
            let r = a % n;
            (a + delta) % n == (if 0 <= r + delta < n {
                r + delta
            } else if r + delta == n {
                0
            } else {
                n - 1
            })
        }),
{
    let q = a / n;
    let r = a % n;
    vstd::arithmetic::div_mod::lemma_fundamental_div_mod(a, n);
    vstd::arithmetic::div_mod::lemma_mod_bound(a, n);
    assert(a == q * n + r) by (nonlinear_arith)
        requires
            a == n * q + r,
    ;
    if 0 <= r + delta < n {
        vstd::arithmetic::div_mod::lemma_fundamental_div_mod_converse(a + delta, n, q, r + delta);
    } else if r + delta == n {
        assert(a + delta == (q + 1) * n + 0) by (nonlinear_arith)
            requires
                a == q * n + r,
                r + delta == n,
        ;
        vstd::arithmetic::div_mod::lemma_fundamental_div_mod_converse(a + delta, n, q + 1, 0);
    } else {
        assert(a + delta == (q - 1) * n + (n - 1)) by (nonlinear_arith)
            requires
                a == q * n + r,
                r + delta == -1,
        ;
        vstd::arithmetic::div_mod::lemma_fundamental_div_mod_converse(a + delta, n, q - 1, n - 1);
    }
}

/// Every slot is reached by the forward walk within `n` steps.
pub proof fn lemma_fwd_covers(start: int, n: int, e: int)
    requires
        n > 0,
        0 <= e < n,
    ensures
        exists|k: int| 1 <= k <= n && #[trigger] cyc_fwd(start, k, n) == e,
{
    let d = (e - start) % n;
    vstd::arithmetic::div_mod::lemma_mod_bound(e - start, n);
    let k = if d == 0 {
        n
    } else {
        d
    };
    let q = (e - start) / n;
    vstd::arithmetic::div_mod::lemma_fundamental_div_mod(e - start, n);
    if d == 0 {
        assert(start + n == e + (1 - q) * n) by (nonlinear_arith)
            requires
                e - start == n * q + 0,
        ;
        vstd::arithmetic::div_mod::lemma_fundamental_div_mod_converse(start + n, n, 1 - q, e);
    } else {
        assert(start + d == e + (-q) * n) by (nonlinear_arith)
            requires
                e - start == n * q + d,
        ;
        vstd::arithmetic::div_mod::lemma_fundamental_div_mod_converse(start + d, n, -q, e);
    }
    assert(cyc_fwd(start, k, n) == e);
}

/// Every slot is reached by the backward walk within `n` steps.
pub proof fn lemma_back_covers(start: int, n: int, e: int)
    requires
        n > 0,
        0 <= e < n,
    ensures
        exists|k: int| 1 <= k <= n && #[trigger] cyc_back(start, k, n) == e,
{
    let d = (start - e) % n;
    vstd::arithmetic::div_mod::lemma_mod_bound(start - e, n);
    let k = if d == 0 {
        n
    } else {
        d
    };
    let q = (start - e) / n;
    vstd::arithmetic::div_mod::lemma_fundamental_div_mod(start - e, n);
    if d == 0 {
        assert(start - n == e + (q - 1) * n) by (nonlinear_arith)
            requires
                start - e == n * q + 0,
        ;
        vstd::arithmetic::div_mod::lemma_fundamental_div_mod_converse(start - n, n, q - 1, e);
    } else {
        assert(start - d == e + q * n) by (nonlinear_arith)
            requires
                start - e == n * q + d,
        ;
        vstd::arithmetic::div_mod::lemma_fundamental_div_mod_converse(start - d, n, q, e);
    }
    assert(cyc_back(start, k, n) == e);
}

/// One more forward step from a residue.
pub proof fn lemma_fwd_next(start: int, k: int, n: int)
    requires
        n > 0,
    ensures
        0 <= cyc_fwd(start, k, n) < n,
        cyc_fwd(start, k + 1, n) == (cyc_fwd(start, k, n) + 1) % n,
        cyc_fwd(start, k + 1, n) == (if cyc_fwd(start, k, n) + 1 < n {
            cyc_fwd(start, k, n) + 1
        } else {
            0
        }),
{
    vstd::arithmetic::div_mod::lemma_mod_bound(start + k, n);
    lemma_mod_step(start + k, n, 1);
    lemma_mod_step(cyc_fwd(start, k, n), n, 1);
    vstd::arithmetic::div_mod::lemma_small_mod(cyc_fwd(start, k, n) as nat, n as nat);
}

/// One more backward step from a residue.
pub proof fn lemma_back_next(start: int, k: int, n: int)
    requires
        n > 0,
    ensures
        0 <= cyc_back(start, k, n) < n,
        cyc_back(start, k + 1, n) == (if cyc_back(start, k, n) == 0 {
            n - 1
        } else {
            cyc_back(start, k, n) - 1
        }),
{
    vstd::arithmetic::div_mod::lemma_mod_bound(start - k, n);
    lemma_mod_step(start - k, n, -1);
}

/// Walking `n` steps forward from an in-range start returns to it.
pub proof fn lemma_fwd_full(start: int, n: int)
    requires
        0 <= start < n,
    ensures
        cyc_fwd(start, n, n) == start,
        cyc_back(start, n, n) == start,
{
    vstd::arithmetic::div_mod::lemma_small_mod(start as nat, n as nat);
    vstd::arithmetic::div_mod::lemma_mod_add_multiples_vanish(start, n);
    vstd::arithmetic::div_mod::lemma_mod_sub_multiples_vanish(start, n);
}

/// Zero steps from an in-range start stay at it.
pub proof fn lemma_zero_steps(start: int, n: int)
    requires
        0 <= start < n,
    ensures
        cyc_fwd(start, 0, n) == start,
        cyc_back(start, 0, n) == start,
{
    vstd::arithmetic::div_mod::lemma_small_mod(start as nat, n as nat);
}

} // verus!
