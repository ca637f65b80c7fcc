//! The figures that sum up the rounds of the games played: how many games,
//! their total, and the least, the middle and the greatest of them.

use crate::play::TurnCount;
use vstd::prelude::*;

verus! {

/// Whether the sequence ascends.
pub open spec fn is_sorted(s: Seq<TurnCount>) -> bool {
    forall|i: int, j: int| 0 <= i <= j < s.len() ==> s[i] <= s[j]
}

/// The sum of the sequence.
pub open spec fn total_of(s: Seq<TurnCount>) -> int
    decreases s.len(),
{
    if s.len() == 0 {
        0
    } else {
        total_of(s.drop_last()) + s.last()
    }
}

/// The sum of a sequence is the sum of the sequence without one of its
/// elements, and that element.
pub proof fn lemma_total_of_remove(s: Seq<TurnCount>, i: int)
    requires
        0 <= i < s.len(),
    ensures
        total_of(s) == total_of(s.remove(i)) + s[i],
    decreases s.len(),
{
    if i == s.len() - 1 {
        assert(s.remove(i) =~= s.drop_last());
    } else {
        lemma_total_of_remove(s.drop_last(), i);
        assert(s.remove(i).drop_last() =~= s.drop_last().remove(i));
        assert(s.remove(i).last() == s.last());
    }
}

/// Two sequences that hold the same elements, each as often as the other,
/// have the same sum.
pub proof fn lemma_total_of_permutation(a: Seq<TurnCount>, b: Seq<TurnCount>)
    requires
        a.to_multiset() == b.to_multiset(),
    ensures
        total_of(a) == total_of(b),
    decreases a.len(),
{
    a.to_multiset_ensures();
    b.to_multiset_ensures();
    if a.len() > 0 {
        let x = a.last();
        assert(a.contains(x));
        assert(b.to_multiset().count(x) > 0);
        let j = b.index_of(x);
        assert(a.remove(a.len() - 1) =~= a.drop_last());
        assert(a.drop_last().to_multiset() == b.remove(j).to_multiset());
        lemma_total_of_permutation(a.drop_last(), b.remove(j));
        lemma_total_of_remove(b, j);
    } else {
        assert(b.len() == 0);
    }
}

/// The sum of a sequence whose elements all lie between `low` and `high`
/// lies between that many times `low` and that many times `high`.
pub proof fn lemma_total_of_bounds(s: Seq<TurnCount>, low: int, high: int)
    requires
        forall|i: int| 0 <= i < s.len() ==> low <= #[trigger] s[i] <= high,
    ensures
        s.len() * low <= total_of(s) <= s.len() * high,
    decreases s.len(),
{
    if s.len() > 0 {
        lemma_total_of_bounds(s.drop_last(), low, high);
        assert((s.len() - 1) * low + low == s.len() * low) by (nonlinear_arith);
        assert((s.len() - 1) * high + high == s.len() * high) by (nonlinear_arith);
    }
}

/// In an ascending sequence that is not empty the middle element lies
/// between the first and the last, and so does the mean: the sum lies
/// between the length times the first and the length times the last.
pub proof fn lemma_sorted_figures_are_ordered(s: Seq<TurnCount>)
    requires
        is_sorted(s),
        s.len() > 0,
    ensures
        s[0] <= s[s.len() as int / 2] <= s[s.len() - 1],
        s.len() * s[0] <= total_of(s) <= s.len() * s[s.len() - 1],
{
    lemma_total_of_bounds(s, s[0] as int, s[s.len() - 1] as int);
}

/// The figures that sum up a collection of round counts.
#[derive(Clone, Copy, Debug, PartialEq, Eq, Structural)]
pub struct Summary {
    /// The number of games.
    pub instances: usize,
    /// The sum of their round counts.
    pub total: u128,
    /// The least round count.
    pub min: TurnCount,
    /// The round count in the middle of the ascending order: the upper of
    /// the two in the middle where the number of games is even.
    pub median: TurnCount,
    /// The greatest round count.
    pub max: TurnCount,
}

/// The figures of an ascending sequence that is not empty.
pub open spec fn summary_of(sorted: Seq<TurnCount>) -> Summary {
    Summary {
        instances: sorted.len() as usize,
        total: total_of(sorted) as u128,
        min: sorted[0],
        median: sorted[sorted.len() as int / 2],
        max: sorted[sorted.len() - 1],
    }
}

/// `sort_unstable` of std on a slice of round counts, which sorts the slice
/// in place into ascending order: afterwards the slice ascends and holds
/// what it held before, each count as often as before.
#[verifier::external_body]
fn sort_rounds(results: &mut [TurnCount])
    ensures
        is_sorted(final(results)@),
        final(results)@.to_multiset() == old(results)@.to_multiset(),
{
    results.sort_unstable()
}

/// The sum of the round counts.
pub fn total_rounds(results: &[TurnCount]) -> (total: u128)
    ensures
        total == total_of(results@),
{
    let mut total: u128 = 0;
    let mut index: usize = 0;
    while index < results.len()
        invariant
            index <= results@.len(),
            total == total_of(results@.take(index as int)),
            total <= index * u64::MAX,
        decreases results@.len() - index,
    {
        assert(results@.take(index + 1).drop_last() =~= results@.take(index as int));
        assert((index + 1) * u64::MAX == index * u64::MAX + u64::MAX) by (nonlinear_arith);
        assert(index * u64::MAX + u64::MAX <= usize::MAX * u64::MAX + u64::MAX) by (nonlinear_arith)
            requires
                index <= usize::MAX,
        ;
        total = total + results[index] as u128;
        index += 1;
    }
    assert(results@.take(index as int) =~= results@);
    total
}

/// The median of round counts that ascend: the count in the middle, the
/// upper of the two in the middle where their number is even. Where there
/// is no count there is no median.
pub fn median(sorted_results: &mut [TurnCount]) -> (middle: Option<TurnCount>)
    ensures
        final(sorted_results)@ == old(sorted_results)@,
        middle is None <==> old(sorted_results)@.len() == 0,
        middle matches Some(count) ==> count == old(sorted_results)@[old(sorted_results)@.len() as int / 2],
{
    let index: usize = sorted_results.len() / 2;
    if index < sorted_results.len() {
        Some(sorted_results[index])
    } else {
        None
    }
}

/// Sorts the round counts into ascending order and sums them up. A
/// collection that is empty has no figures.
pub fn summarize(results: &mut [TurnCount]) -> (summary: Option<Summary>)
    ensures
        is_sorted(final(results)@),
        final(results)@.to_multiset() == old(results)@.to_multiset(),
        summary is None <==> old(results)@.len() == 0,
        summary matches Some(figures) ==> {
            &&& figures == summary_of(final(results)@)
            &&& figures.instances == old(results)@.len()
            &&& figures.total == total_of(old(results)@)
            &&& figures.min <= figures.median <= figures.max
            &&& figures.instances * figures.min <= figures.total <= figures.instances * figures.max
        },
{
    sort_rounds(results);
    proof {
        old(results)@.to_multiset_ensures();
        results@.to_multiset_ensures();
        lemma_total_of_permutation(old(results)@, results@);
    }
    let instances: usize = results.len();
    match median(results) {
        None => None,
        Some(middle) => {
            let total: u128 = total_rounds(results);
            proof {
                lemma_sorted_figures_are_ordered(results@);
            }
            Some(Summary { instances, total, min: results[0], median: middle, max: results[instances - 1] })
        },
    }
}

} // verus!
