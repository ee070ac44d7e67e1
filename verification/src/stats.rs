//! Aggregate statistics over the timing samples of a benchmark run.
//!
//! A sample is the elapsed time of one kernel invocation in nanoseconds.

use vstd::prelude::*;
use vstd::relations::{sorted_by, total_ordering};
use vstd::seq_lib::lemma_sorted_unique;

verus! {

/// Summary of a non-empty run of samples.
#[derive(Clone, Copy, Debug, PartialEq, Eq, Structural)]
pub struct TimingStats {
    /// Number of samples.
    pub count: usize,
    /// Smallest sample.
    pub min: u64,
    /// Largest sample.
    pub max: u64,
    /// Sum of the samples divided by their number, rounded down.
    pub mean: u64,
    /// Middle sample in ascending order; for an even number of samples the
    /// mean of the two middle ones, rounded down.
    pub median: u64,
}

/// Samples within this factor of each other count as of one magnitude.
pub const MAGNITUDE_FACTOR: u64 = 10;

/// The order of samples.
pub open spec fn sample_leq() -> spec_fn(u64, u64) -> bool {
    |a: u64, b: u64| a <= b
}

/// The samples in ascending order.
pub open spec fn ascending(samples: Seq<u64>) -> Seq<u64> {
    samples.sort_by(sample_leq())
}

/// Sum of the samples.
pub open spec fn total(samples: Seq<u64>) -> int
    decreases samples.len(),
{
    if samples.len() == 0 {
        0
    } else {
        total(samples.drop_last()) + samples.last()
    }
}

/// `m` is a sample and no sample is smaller.
pub open spec fn is_minimum(samples: Seq<u64>, m: u64) -> bool {
    &&& exists|i: int| 0 <= i < samples.len() && samples[i] == m
    &&& forall|i: int| 0 <= i < samples.len() ==> m <= #[trigger] samples[i]
}

/// `m` is a sample and no sample is larger.
pub open spec fn is_maximum(samples: Seq<u64>, m: u64) -> bool {
    &&& exists|i: int| 0 <= i < samples.len() && samples[i] == m
    &&& forall|i: int| 0 <= i < samples.len() ==> m >= #[trigger] samples[i]
}

/// The median of a non-empty run.
pub open spec fn median(samples: Seq<u64>) -> int {
    let sorted = ascending(samples);
    (sorted[(samples.len() - 1) / 2] + sorted[samples.len() as int / 2]) / 2
}

/// Whether `stats` summarises `samples`.
pub open spec fn describes(stats: TimingStats, samples: Seq<u64>) -> bool {
    &&& samples.len() > 0
    &&& stats.count == samples.len()
    &&& is_minimum(samples, stats.min)
    &&& is_maximum(samples, stats.max)
    &&& stats.mean == total(samples) / (samples.len() as int)
    &&& stats.median == median(samples)
}

/// Whether every sample is within the magnitude factor of every other.
pub open spec fn of_one_magnitude(samples: Seq<u64>) -> bool {
    forall|i: int, j: int|
        0 <= i < samples.len() && 0 <= j < samples.len() ==> #[trigger] samples[i]
            <= MAGNITUDE_FACTOR * #[trigger] samples[j]
}

/// The order of samples is a total order.
pub proof fn lemma_sample_order()
    ensures
        total_ordering(sample_leq()),
{
}

/// The ascending samples are the same samples, each as often as before, in
/// nondecreasing order.
pub proof fn lemma_ascending(samples: Seq<u64>)
    ensures
        ascending(samples).to_multiset() == samples.to_multiset(),
        ascending(samples).len() == samples.len(),
        forall|i: int, j: int|
            0 <= i < j < samples.len() ==> ascending(samples)[i] <= ascending(samples)[j],
{
    lemma_sample_order();
    samples.lemma_sort_by_ensures(sample_leq());
    samples.to_multiset_ensures();
    ascending(samples).to_multiset_ensures();
    assert forall|i: int, j: int| 0 <= i < j < samples.len() implies ascending(samples)[i]
        <= ascending(samples)[j] by {
        assert(sample_leq()(ascending(samples)[i], ascending(samples)[j]));
    }
}

/// A sum of samples is at most their number times the largest `u64`.
pub proof fn lemma_total_bound(samples: Seq<u64>)
    ensures
        0 <= total(samples) <= samples.len() * u64::MAX,
    decreases samples.len(),
{
    if samples.len() > 0 {
        lemma_total_bound(samples.drop_last());
    }
}

/// Copies the samples into ascending order.
pub fn sorted_samples(samples: &[u64]) -> (sorted: Vec<u64>)
    ensures
        sorted@ == ascending(samples@),
{
    let n = samples.len();
    let mut sorted: Vec<u64> = Vec::new();
    let mut k: usize = 0;
    proof {
        assert(sorted@ =~= samples@.take(0));
    }
    while k < n
        invariant
            k <= n,
            n == samples@.len(),
            sorted@.len() == k,
            sorted@.to_multiset() == samples@.take(k as int).to_multiset(),
            sorted_by(sorted@, sample_leq()),
        decreases n - k,
    {
        let value = samples[k];
        let mut at: usize = 0;
        while at < k && sorted[at] <= value
            invariant
                at <= k,
                sorted@.len() == k,
                forall|j: int| 0 <= j < at ==> sorted@[j] <= value,
            decreases k - at,
        {
            at = at + 1;
        }
        proof {
            let before = sorted@;
            let after = before.insert(at as int, value);
            vstd::seq_lib::to_multiset_insert(before, at as int, value);
            vstd::seq_lib::to_multiset_build(samples@.take(k as int), value);
            assert(samples@.take(k as int + 1) =~= samples@.take(k as int).push(value));
            assert forall|i: int, j: int| 0 <= i < j < after.len() implies sample_leq()(
                after[i],
                after[j],
            ) by {
                if j < at {
                    assert(sample_leq()(before[i], before[j]));
                } else if j == at {
                } else if i < at {
                    assert(sample_leq()(before[i], before[j - 1]));
                } else if i == at {
                    assert(at < k);
                    assert(sample_leq()(before[at as int], before[j - 1]) || at as int == j - 1);
                } else {
                    assert(sample_leq()(before[i - 1], before[j - 1]));
                }
            }
        }
        sorted.insert(at, value);
        k = k + 1;
    }
    proof {
        assert(samples@.take(n as int) =~= samples@);
        lemma_sample_order();
        samples@.lemma_sort_by_ensures(sample_leq());
        lemma_sorted_unique(sorted@, ascending(samples@), sample_leq());
    }
    sorted
}

/// Summarises a run of samples: count, minimum, maximum, mean and median.
/// An empty run has no summary.
pub fn summarize(samples: &[u64]) -> (r: Option<TimingStats>)
    ensures
        r is None <==> samples@.len() == 0,
        r is Some ==> describes(r->Some_0, samples@),
{
    let n = samples.len();
    if n == 0 {
        return None;
    }
    let mut min: u64 = samples[0];
    let mut max: u64 = samples[0];
    let mut sum: u128 = samples[0] as u128;
    let mut i: usize = 1;
    proof {
        let first = samples@.take(1);
        assert(first.drop_last().len() == 0);
        assert(total(first.drop_last()) == 0);
        assert(first.last() == samples@[0]);
        assert(total(first) == samples@[0]);
    }
    while i < n
        invariant
            1 <= i <= n,
            n == samples@.len(),
            is_minimum(samples@.take(i as int), min),
            is_maximum(samples@.take(i as int), max),
            sum == total(samples@.take(i as int)),
        decreases n - i,
    {
        let value = samples[i];
        proof {
            let before = samples@.take(i as int);
            let after = samples@.take(i as int + 1);
            assert(after.drop_last() =~= before);
            assert(after.last() == value);
            lemma_total_bound(before);
            let at_min = choose|j: int| 0 <= j < before.len() && before[j] == min;
            let at_max = choose|j: int| 0 <= j < before.len() && before[j] == max;
            assert(after[at_min] == min);
            assert(after[at_max] == max);
            assert(after[i as int] == value);
            assert forall|j: int| 0 <= j < after.len() implies (if value < min {
                value
            } else {
                min
            }) <= #[trigger] after[j] by {
                if j < i {
                    assert(before[j] == after[j]);
                }
            }
            assert forall|j: int| 0 <= j < after.len() implies (if value > max {
                value
            } else {
                max
            }) >= #[trigger] after[j] by {
                if j < i {
                    assert(before[j] == after[j]);
                }
            }
        }
        if value < min {
            min = value;
        }
        if value > max {
            max = value;
        }
        sum = sum + value as u128;
        i = i + 1;
    }
    proof {
        assert(samples@.take(n as int) =~= samples@);
        lemma_total_bound(samples@);
        lemma_ascending(samples@);
        assert(sum / (n as u128) <= u64::MAX) by (nonlinear_arith)
            requires
                0 <= sum <= n * u64::MAX,
                n > 0,
        ;
    }
    let sorted = sorted_samples(samples);
    let low: u128 = sorted[(n - 1) / 2] as u128;
    let high: u128 = sorted[n / 2] as u128;
    let mean = (sum / (n as u128)) as u64;
    let median = ((low + high) / 2) as u64;
    Some(TimingStats { count: n, min, max, mean, median })
}

/// Decides whether all samples lie within the magnitude factor of each
/// other. An empty run does.
pub fn within_order_of_magnitude(samples: &[u64]) -> (r: bool)
    ensures
        r == of_one_magnitude(samples@),
{
    match summarize(samples) {
        None => true,
        Some(stats) => {
            let r = (stats.max as u128) <= (MAGNITUDE_FACTOR as u128) * (stats.min as u128);
            proof {
                let at_min = choose|j: int| 0 <= j < samples@.len() && samples@[j] == stats.min;
                let at_max = choose|j: int| 0 <= j < samples@.len() && samples@[j] == stats.max;
                if r {
                    assert forall|i: int, j: int|
                        0 <= i < samples@.len() && 0 <= j < samples@.len() implies #[trigger] samples@[i]
                        <= MAGNITUDE_FACTOR * #[trigger] samples@[j] by {
                        assert(samples@[i] <= stats.max);
                        assert(stats.min <= samples@[j]);
                    }
                } else {
                    assert(!(samples@[at_max] <= MAGNITUDE_FACTOR * samples@[at_min]));
                }
            }
            r
        },
    }
}

} // verus!
