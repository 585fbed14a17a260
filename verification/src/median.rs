//! Reducing several raw readings to one representative number via the median.
//!
//! Readings are integers (nanoseconds of round-trip time, for instance), so that the
//! ordering and the choice of the middle are exact. The median of an even number of
//! readings is the mean of the two middle ones; this module hands both of them back
//! and leaves the mean to the caller, who may want it in another unit.
use vstd::prelude::*;
use vstd::relations::{sorted_by, total_ordering};
use vstd::seq_lib::{
    group_to_multiset_ensures, lemma_sorted_unique, to_multiset_contains, to_multiset_update,
};

verus! {

/// The order in which readings are arranged before the middle is taken.
pub open spec fn ascending() -> spec_fn(u64, u64) -> bool {
    |a: u64, b: u64| a <= b
}

/// `s` is in ascending order.
pub open spec fn is_ascending(s: Seq<u64>) -> bool {
    forall|i: int, j: int| 0 <= i < j < s.len() ==> s[i] <= s[j]
}

/// The readings rearranged in ascending order.
pub open spec fn sorted_readings(readings: Seq<u64>) -> Seq<u64> {
    readings.sort_by(ascending())
}

/// The two middle values of a non-empty collection of readings in ascending order.
///
/// For an odd count both are the single middle reading; for an even count they are
/// the readings on either side of the middle, and the median is their mean.
#[derive(Debug, Clone, Copy, PartialEq, Eq, Structural)]
pub struct Median {
    pub lower: u64,
    pub upper: u64,
}

/// The middle pair of `readings` once they are in ascending order.
pub open spec fn median_of(readings: Seq<u64>) -> Median
    recommends
        readings.len() > 0,
{
    let sorted = sorted_readings(readings);
    Median {
        lower: sorted[(readings.len() as int - 1) / 2],
        upper: sorted[readings.len() as int / 2],
    }
}

/// `<=` on readings is a total order.
pub proof fn lemma_ascending_is_total()
    ensures
        total_ordering(ascending()),
{
    let leq = ascending();
    assert(vstd::relations::reflexive(leq));
    assert(vstd::relations::antisymmetric(leq));
    assert(vstd::relations::transitive(leq));
    assert(vstd::relations::strongly_connected(leq));
}

/// The ascending arrangement holds the same readings and is in ascending order.
pub proof fn lemma_sorted_readings(readings: Seq<u64>)
    ensures
        sorted_readings(readings).to_multiset() == readings.to_multiset(),
        sorted_readings(readings).len() == readings.len(),
        is_ascending(sorted_readings(readings)),
{
    broadcast use group_to_multiset_ensures;

    lemma_ascending_is_total();
    readings.lemma_sort_by_ensures(ascending());
    let sorted = sorted_readings(readings);
    assert forall|i: int, j: int| 0 <= i < j < sorted.len() implies sorted[i] <= sorted[j] by {
        assert(ascending()(sorted[i], sorted[j]));
    }
    assert(sorted.to_multiset().len() == readings.to_multiset().len());
}

/// A sequence in ascending order that holds exactly the readings is their ascending
/// arrangement: there is only one.
pub proof fn lemma_ascending_arrangement_is_unique(arranged: Seq<u64>, readings: Seq<u64>)
    requires
        is_ascending(arranged),
        arranged.to_multiset() == readings.to_multiset(),
    ensures
        arranged == sorted_readings(readings),
{
    lemma_ascending_is_total();
    lemma_sorted_readings(readings);
    let sorted = sorted_readings(readings);
    assert(sorted_by(arranged, ascending()));
    assert(sorted_by(sorted, ascending()));
    lemma_sorted_unique(arranged, sorted, ascending());
}

/// Rearranges `readings` in place into ascending order.
pub fn sort_readings(readings: &mut Vec<u64>)
    ensures
        final(readings)@ == sorted_readings(old(readings)@),
{
    broadcast use group_to_multiset_ensures;
    broadcast use vstd::multiset::group_multiset_axioms;

    let n: usize = readings.len();
    if n < 2 {
        proof {
            lemma_ascending_arrangement_is_unique(readings@, readings@);
        }
        return;
    }
    let mut i: usize = 1;
    while i < n
        invariant
            n == readings.len(),
            1 <= i <= n,
            forall|a: int, b: int| 0 <= a < b < i ==> readings[a] <= readings[b],
            readings@.to_multiset() == old(readings)@.to_multiset(),
        decreases n - i,
    {
        let mut j: usize = i;
        while j > 0 && readings[j - 1] > readings[j]
            invariant
                n == readings.len(),
                0 <= j <= i < n,
                forall|a: int, b: int|
                    0 <= a < b <= i && a != j && b != j ==> readings[a] <= readings[b],
                forall|b: int| j < b <= i ==> readings[j as int] <= readings[b],
                readings@.to_multiset() == old(readings)@.to_multiset(),
            decreases j,
        {
            let ghost before = readings@;
            let higher: u64 = readings[j - 1];
            let lower: u64 = readings[j];
            readings.set(j - 1, lower);
            readings.set(j, higher);
            proof {
                let once = before.update(j - 1, lower);
                assert(readings@ == once.update(j as int, higher));
                to_multiset_update(before, j - 1, lower);
                to_multiset_update(once, j as int, higher);
                assert(before.contains(higher));
                to_multiset_contains(before, higher);
                assert(once.to_multiset().count(lower) > 0);
                assert(readings@.to_multiset() =~= before.to_multiset());
            }
            j = j - 1;
        }
        i = i + 1;
    }
    proof {
        lemma_ascending_arrangement_is_unique(readings@, old(readings)@);
    }
}

/// Sorts `readings` in place and returns their middle pair.
///
/// The original order is not kept: afterwards `readings` is in ascending order.
pub fn median(readings: &mut Vec<u64>) -> (m: Median)
    requires
        old(readings).len() > 0,
    ensures
        final(readings)@ == sorted_readings(old(readings)@),
        m == median_of(old(readings)@),
{
    proof {
        lemma_sorted_readings(readings@);
    }
    sort_readings(readings);
    let n: usize = readings.len();
    let mid: usize = n / 2;
    if n % 2 == 0 {
        Median { lower: readings[mid - 1], upper: readings[mid] }
    } else {
        Median { lower: readings[mid], upper: readings[mid] }
    }
}

/// The median depends only on which readings were taken, not on the order in which
/// they arrived.
pub proof fn lemma_median_ignores_arrival_order(first: Seq<u64>, second: Seq<u64>)
    requires
        first.len() > 0,
        first.to_multiset() == second.to_multiset(),
    ensures
        median_of(first) == median_of(second),
{
    broadcast use group_to_multiset_ensures;

    lemma_sorted_readings(first);
    lemma_sorted_readings(second);
    lemma_ascending_arrangement_is_unique(sorted_readings(first), second);
    assert(first.to_multiset().len() == second.to_multiset().len());
}

/// The middle pair are readings that were taken, the lower is at most the upper,
/// and for an odd number of readings they are the same reading.
pub proof fn lemma_median_is_a_middle_reading(readings: Seq<u64>)
    requires
        readings.len() > 0,
    ensures
        median_of(readings).lower <= median_of(readings).upper,
        readings.contains(median_of(readings).lower),
        readings.contains(median_of(readings).upper),
        readings.len() % 2 == 1 ==> median_of(readings).lower == median_of(readings).upper,
{
    broadcast use group_to_multiset_ensures;
    broadcast use vstd::multiset::group_multiset_axioms;

    lemma_sorted_readings(readings);
    let sorted = sorted_readings(readings);
    let lo: int = (readings.len() as int - 1) / 2;
    let hi: int = readings.len() as int / 2;
    assert(sorted.contains(sorted[lo]));
    assert(sorted.contains(sorted[hi]));
    to_multiset_contains(sorted, sorted[lo]);
    to_multiset_contains(sorted, sorted[hi]);
    to_multiset_contains(readings, sorted[lo]);
    to_multiset_contains(readings, sorted[hi]);
}

/// The largest element of the ascending arrangement is the largest reading.
proof fn lemma_last_is_largest(readings: Seq<u64>, i: int)
    requires
        0 <= i < readings.len(),
        forall|j: int| 0 <= j < readings.len() ==> readings[j] <= readings[i],
    ensures
        sorted_readings(readings)[readings.len() - 1] == readings[i],
{
    broadcast use group_to_multiset_ensures;

    lemma_sorted_readings(readings);
    let sorted = sorted_readings(readings);
    let last: u64 = sorted[readings.len() - 1];
    assert(readings.contains(readings[i]));
    to_multiset_contains(readings, readings[i]);
    to_multiset_contains(sorted, readings[i]);
    let k: int = choose|k: int| 0 <= k < sorted.len() && sorted[k] == readings[i];
    assert(sorted[k] <= last);
    assert(sorted.contains(last));
    to_multiset_contains(sorted, last);
    to_multiset_contains(readings, last);
}

/// The smallest element of the ascending arrangement is the smallest reading.
proof fn lemma_first_is_smallest(readings: Seq<u64>, i: int)
    requires
        0 <= i < readings.len(),
        forall|j: int| 0 <= j < readings.len() ==> readings[i] <= readings[j],
    ensures
        sorted_readings(readings)[0] == readings[i],
{
    broadcast use group_to_multiset_ensures;

    lemma_sorted_readings(readings);
    let sorted = sorted_readings(readings);
    let first: u64 = sorted[0];
    assert(readings.contains(readings[i]));
    to_multiset_contains(readings, readings[i]);
    to_multiset_contains(sorted, readings[i]);
    let k: int = choose|k: int| 0 <= k < sorted.len() && sorted[k] == readings[i];
    assert(first <= sorted[k]);
    assert(sorted.contains(first));
    to_multiset_contains(sorted, first);
    to_multiset_contains(readings, first);
}

/// The median resists a transient outlier: with three or more readings, making the
/// largest reading larger still, by any amount, leaves the median where it was.
pub proof fn lemma_median_resists_a_high_outlier(readings: Seq<u64>, i: int, outlier: u64)
    requires
        readings.len() >= 3,
        0 <= i < readings.len(),
        forall|j: int| 0 <= j < readings.len() ==> readings[j] <= readings[i],
        readings[i] <= outlier,
    ensures
        median_of(readings.update(i, outlier)) == median_of(readings),
{
    broadcast use group_to_multiset_ensures;

    let n: int = readings.len() as int;
    lemma_sorted_readings(readings);
    lemma_last_is_largest(readings, i);
    let sorted = sorted_readings(readings);
    let moved = sorted.update(n - 1, outlier);
    to_multiset_update(sorted, n - 1, outlier);
    to_multiset_update(readings, i, outlier);
    assert(is_ascending(moved));
    lemma_ascending_arrangement_is_unique(moved, readings.update(i, outlier));
}

/// The median resists a transient outlier: with three or more readings, making the
/// smallest reading smaller still, by any amount, leaves the median where it was.
pub proof fn lemma_median_resists_a_low_outlier(readings: Seq<u64>, i: int, outlier: u64)
    requires
        readings.len() >= 3,
        0 <= i < readings.len(),
        forall|j: int| 0 <= j < readings.len() ==> readings[i] <= readings[j],
        outlier <= readings[i],
    ensures
        median_of(readings.update(i, outlier)) == median_of(readings),
{
    broadcast use group_to_multiset_ensures;

    lemma_sorted_readings(readings);
    lemma_first_is_smallest(readings, i);
    let sorted = sorted_readings(readings);
    let moved = sorted.update(0, outlier);
    to_multiset_update(sorted, 0, outlier);
    to_multiset_update(readings, i, outlier);
    assert(is_ascending(moved));
    lemma_ascending_arrangement_is_unique(moved, readings.update(i, outlier));
}

/// How many of the readings satisfy `p`.
pub open spec fn count_where(readings: Seq<u64>, p: spec_fn(u64) -> bool) -> nat
    decreases readings.len(),
{
    if readings.len() == 0 {
        0
    } else {
        count_where(readings.drop_last(), p) + if p(readings.last()) {
            1nat
        } else {
            0nat
        }
    }
}

/// Readings strictly below `x`.
pub open spec fn below(x: u64) -> spec_fn(u64) -> bool {
    |r: u64| r < x
}

/// Readings no greater than `x`.
pub open spec fn at_most(x: u64) -> spec_fn(u64) -> bool {
    |r: u64| r <= x
}

proof fn lemma_count_concat(first: Seq<u64>, second: Seq<u64>, p: spec_fn(u64) -> bool)
    ensures
        count_where(first + second, p) == count_where(first, p) + count_where(second, p),
    decreases second.len(),
{
    if second.len() == 0 {
        assert(first + second =~= first);
    } else {
        lemma_count_concat(first, second.drop_last(), p);
        assert((first + second).drop_last() =~= first + second.drop_last());
    }
}

proof fn lemma_count_remove(readings: Seq<u64>, i: int, p: spec_fn(u64) -> bool)
    requires
        0 <= i < readings.len(),
    ensures
        count_where(readings, p) == count_where(readings.remove(i), p) + if p(readings[i]) {
            1nat
        } else {
            0nat
        },
{
    let before = readings.take(i);
    let after = readings.skip(i + 1);
    assert(readings =~= (before + seq![readings[i]]) + after);
    assert(readings.remove(i) =~= before + after);
    lemma_count_concat(before + seq![readings[i]], after, p);
    lemma_count_concat(before, seq![readings[i]], p);
    lemma_count_concat(before, after, p);
    assert(seq![readings[i]].drop_last() =~= Seq::<u64>::empty());
    assert(count_where(Seq::<u64>::empty(), p) == 0);
    assert(count_where(seq![readings[i]], p) == if p(readings[i]) {
        1nat
    } else {
        0nat
    });
}

proof fn lemma_count_ignores_order(first: Seq<u64>, second: Seq<u64>, p: spec_fn(u64) -> bool)
    requires
        first.to_multiset() == second.to_multiset(),
    ensures
        count_where(first, p) == count_where(second, p),
    decreases first.len(),
{
    broadcast use group_to_multiset_ensures;
    broadcast use vstd::multiset::group_multiset_axioms;

    if first.len() == 0 {
        assert(second.to_multiset().len() == 0);
        assert(second =~= Seq::<u64>::empty());
    } else {
        let x: u64 = first.last();
        let rest = first.drop_last();
        assert(first =~= rest.push(x));
        assert(first.contains(x));
        to_multiset_contains(first, x);
        to_multiset_contains(second, x);
        let i: int = choose|i: int| 0 <= i < second.len() && second[i] == x;
        let others = second.remove(i);
        assert(rest.to_multiset() =~= first.to_multiset().remove(x));
        assert(others.to_multiset() =~= second.to_multiset().remove(x));
        lemma_count_ignores_order(rest, others, p);
        lemma_count_remove(second, i, p);
    }
}

proof fn lemma_count_extremes(readings: Seq<u64>, p: spec_fn(u64) -> bool)
    ensures
        count_where(readings, p) <= readings.len(),
        (forall|i: int| 0 <= i < readings.len() ==> p(#[trigger] readings[i])) ==> count_where(
            readings,
            p,
        ) == readings.len(),
        (forall|i: int| 0 <= i < readings.len() ==> !p(#[trigger] readings[i])) ==> count_where(
            readings,
            p,
        ) == 0,
    decreases readings.len(),
{
    if readings.len() > 0 {
        let rest = readings.drop_last();
        lemma_count_extremes(rest, p);
        if forall|i: int| 0 <= i < readings.len() ==> p(#[trigger] readings[i]) {
            assert forall|i: int| 0 <= i < rest.len() implies p(#[trigger] rest[i]) by {
                assert(rest[i] == readings[i]);
            }
            assert(p(readings[readings.len() - 1]));
        }
        if forall|i: int| 0 <= i < readings.len() ==> !p(#[trigger] readings[i]) {
            assert forall|i: int| 0 <= i < rest.len() implies !p(#[trigger] rest[i]) by {
                assert(rest[i] == readings[i]);
            }
            assert(!p(readings[readings.len() - 1]));
        }
    }
}

/// In ascending readings, the element at position `k` has at most `k` readings strictly
/// below it.
proof fn lemma_rank_below(sorted: Seq<u64>, k: int)
    requires
        is_ascending(sorted),
        0 <= k < sorted.len(),
    ensures
        count_where(sorted, below(sorted[k])) <= k,
{
    let x: u64 = sorted[k];
    let p = below(x);
    let front = sorted.take(k);
    let back = sorted.skip(k);
    assert(sorted =~= front + back);
    lemma_count_concat(front, back, p);
    lemma_count_extremes(front, p);
    assert forall|i: int| 0 <= i < back.len() implies !p(#[trigger] back[i]) by {
        assert(back[i] == sorted[k + i]);
        assert(sorted[k] <= sorted[k + i]);
    }
    lemma_count_extremes(back, p);
}

/// In ascending readings, the element at position `k` has at least `k + 1` readings no
/// greater than it.
proof fn lemma_rank_at_most(sorted: Seq<u64>, k: int)
    requires
        is_ascending(sorted),
        0 <= k < sorted.len(),
    ensures
        count_where(sorted, at_most(sorted[k])) >= k + 1,
{
    let x: u64 = sorted[k];
    let p = at_most(x);
    let upto = sorted.take(k + 1);
    let rest = sorted.skip(k + 1);
    assert(sorted =~= upto + rest);
    lemma_count_concat(upto, rest, p);
    assert forall|i: int| 0 <= i < upto.len() implies p(#[trigger] upto[i]) by {
        assert(upto[i] == sorted[i]);
        assert(sorted[i] <= sorted[k]);
    }
    lemma_count_extremes(upto, p);
}

/// What makes the median the middle: of `n` readings, at most `(n - 1) / 2` lie strictly
/// below the lower middle value and at least `(n - 1) / 2 + 1` lie at or below it; at
/// most `n / 2` lie strictly below the upper middle value and at least `n / 2 + 1` lie at
/// or below it. These counts pick out exactly one value each, so for an odd count both
/// are the reading with as many readings at or above it as at or below it.
pub proof fn lemma_median_splits_the_readings(readings: Seq<u64>)
    requires
        readings.len() > 0,
    ensures
        count_where(readings, below(median_of(readings).lower)) <= (readings.len() - 1) / 2,
        count_where(readings, at_most(median_of(readings).lower)) >= (readings.len() - 1) / 2
            + 1,
        count_where(readings, below(median_of(readings).upper)) <= readings.len() / 2,
        count_where(readings, at_most(median_of(readings).upper)) >= readings.len() / 2 + 1,
{
    lemma_sorted_readings(readings);
    let sorted = sorted_readings(readings);
    let lo: int = (readings.len() as int - 1) / 2;
    let hi: int = readings.len() as int / 2;
    lemma_rank_below(sorted, lo);
    lemma_rank_at_most(sorted, lo);
    lemma_rank_below(sorted, hi);
    lemma_rank_at_most(sorted, hi);
    lemma_count_ignores_order(sorted, readings, below(sorted[lo]));
    lemma_count_ignores_order(sorted, readings, at_most(sorted[lo]));
    lemma_count_ignores_order(sorted, readings, below(sorted[hi]));
    lemma_count_ignores_order(sorted, readings, at_most(sorted[hi]));
}

/// Readings already in ascending order are left as they are, so their median is read
/// straight off the middle.
pub proof fn lemma_ascending_readings_stay_put(readings: Seq<u64>)
    requires
        is_ascending(readings),
    ensures
        sorted_readings(readings) == readings,
{
    lemma_ascending_arrangement_is_unique(readings, readings);
}

} // verus!
