//! The summary of a series of run times: their mean and their median.
//!
//! The times are whole nanoseconds.  Taking them is the caller's business.

use vstd::prelude::*;
use vstd::relations::{sorted_by, total_ordering};
use vstd::seq_lib::lemma_sorted_unique;

verus! {

/// The order of run times: shorter first.
pub open spec fn ascending() -> spec_fn(u64, u64) -> bool {
    |a: u64, b: u64| a <= b
}

/// The run times added up.
pub open spec fn total(durations: Seq<u64>) -> nat
    decreases durations.len(),
{
    if durations.len() == 0 {
        0
    } else {
        total(durations.drop_last()) + durations.last() as nat
    }
}

/// The mean of the run times, rounded down.
pub open spec fn mean_of(durations: Seq<u64>) -> nat
    recommends
        durations.len() > 0,
{
    total(durations) / durations.len()
}

/// The median of run times that are in ascending order: the middle one, or
/// the mean of the two middle ones, rounded down.
pub open spec fn middle_of(sorted: Seq<u64>) -> nat
    recommends
        sorted.len() > 0,
{
    let n = sorted.len() as int;
    if n % 2 == 0 {
        ((sorted[n / 2 - 1] + sorted[n / 2]) / 2) as nat
    } else {
        sorted[n / 2] as nat
    }
}

/// The median of the run times, in whatever order they come.
pub open spec fn median_of(durations: Seq<u64>) -> nat
    recommends
        durations.len() > 0,
{
    middle_of(durations.sort_by(ascending()))
}

/// The sum of run times is at most the largest time for each.
proof fn lemma_total_bound(durations: Seq<u64>)
    ensures
        total(durations) <= durations.len() * u64::MAX,
    decreases durations.len(),
{
    if durations.len() > 0 {
        lemma_total_bound(durations.drop_last());
        assert((durations.len() - 1) * u64::MAX + u64::MAX == durations.len() * u64::MAX)
            by (nonlinear_arith);
    }
}

/// Sorts run times with `slice::sort`.  Believed of it: afterwards the times
/// are in ascending order, and they are the times that were there before,
/// each as often as before.
#[verifier::external_body]
fn sort_ascending(durations: &mut Vec<u64>)
    ensures
        sorted_by(final(durations)@, ascending()),
        final(durations)@.to_multiset() == old(durations)@.to_multiset(),
{
    durations.sort();
}

/// The mean of the run times, rounded down.
pub fn mean(durations: &Vec<u64>) -> (mean: u64)
    requires
        durations@.len() > 0,
    ensures
        mean == mean_of(durations@),
{
    let n = durations.len();
    let mut sum: u128 = 0;
    let mut i: usize = 0;
    while i < n
        invariant
            n == durations@.len(),
            i <= n,
            sum == total(durations@.take(i as int)),
        decreases n - i,
    {
        proof {
            let longer = durations@.take(i + 1);
            assert(longer.drop_last() =~= durations@.take(i as int));
            assert(longer.last() == durations@[i as int]);
            lemma_total_bound(longer);
            assert((i + 1) * u64::MAX <= u64::MAX * u64::MAX) by (nonlinear_arith)
                requires
                    i + 1 <= u64::MAX,
            ;
            assert(u64::MAX * u64::MAX < u128::MAX);
        }
        sum = sum + durations[i] as u128;
        i += 1;
    }
    proof {
        assert(durations@.take(n as int) =~= durations@);
        lemma_total_bound(durations@);
        assert(sum / (n as u128) <= u64::MAX) by (nonlinear_arith)
            requires
                sum <= n * u64::MAX,
                n > 0,
        ;
    }
    (sum / n as u128) as u64
}

/// The median of the run times.  The times are left in ascending order.
pub fn median(durations: &mut Vec<u64>) -> (median: u64)
    requires
        old(durations)@.len() > 0,
    ensures
        median == median_of(old(durations)@),
        final(durations)@ == old(durations)@.sort_by(ascending()),
{
    sort_ascending(durations);
    proof {
        let leq = ascending();
        assert(total_ordering(leq));
        old(durations)@.lemma_sort_by_ensures(leq);
        lemma_sorted_unique(durations@, old(durations)@.sort_by(leq), leq);
        old(durations)@.to_multiset_ensures();
        durations@.to_multiset_ensures();
    }
    let n = durations.len();
    if n % 2 == 0 {
        ((durations[n / 2 - 1] as u128 + durations[n / 2] as u128) / 2) as u64
    } else {
        durations[n / 2]
    }
}

/// The mean and the median of the run times, in that order.  The times are
/// left in ascending order.
pub fn mean_and_median(durations: &mut Vec<u64>) -> (summary: (u64, u64))
    requires
        old(durations)@.len() > 0,
    ensures
        summary.0 == mean_of(old(durations)@),
        summary.1 == median_of(old(durations)@),
        final(durations)@ == old(durations)@.sort_by(ascending()),
{
    let mean = mean(durations);
    let median = median(durations);
    (mean, median)
}

} // verus!
