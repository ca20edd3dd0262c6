//! Sums of integer sequences, with the prefix facts that loops need.
use vstd::prelude::*;

verus! {

/// The sum of all entries of `s`.
pub open spec fn sum_of(s: Seq<int>) -> int
    decreases s.len(),
{
    if s.len() == 0 {
        0
    } else {
        sum_of(s.drop_last()) + s.last()
    }
}

/// Whether every entry of `s` is at least zero.
pub open spec fn all_nonneg(s: Seq<int>) -> bool {
    forall|i: int| 0 <= i < s.len() ==> 0 <= #[trigger] s[i]
}

/// Extending a prefix by one entry adds that entry to its sum.
pub proof fn lemma_sum_take_step(s: Seq<int>, i: int)
    requires
        0 <= i < s.len(),
    ensures
        sum_of(s.take(i + 1)) == sum_of(s.take(i)) + s[i],
{
    assert(s.take(i + 1).drop_last() =~= s.take(i));
}

/// The whole sequence is its own longest prefix.
pub proof fn lemma_sum_take_all(s: Seq<int>)
    ensures
        sum_of(s.take(s.len() as int)) == sum_of(s),
{
    assert(s.take(s.len() as int) =~= s);
}

/// A prefix of a sequence of non-negative entries sums to at least zero and
/// to at most the whole.
pub proof fn lemma_sum_prefix_bounds(s: Seq<int>, i: int)
    requires
        0 <= i <= s.len(),
        all_nonneg(s),
    ensures
        0 <= sum_of(s.take(i)) <= sum_of(s),
    decreases s.len() - i,
{
    if i == s.len() {
        lemma_sum_take_all(s);
        lemma_sum_nonneg(s.take(i));
    } else {
        lemma_sum_take_step(s, i);
        lemma_sum_prefix_bounds(s, i + 1);
        lemma_sum_nonneg(s.take(i));
    }
}

/// A sequence of non-negative entries has a non-negative sum.
pub proof fn lemma_sum_nonneg(s: Seq<int>)
    requires
        all_nonneg(s),
    ensures
        sum_of(s) >= 0,
    decreases s.len(),
{
    if s.len() > 0 {
        lemma_sum_nonneg(s.drop_last());
    }
}

} // verus!
