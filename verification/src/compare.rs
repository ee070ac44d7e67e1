//! Element-by-element comparison of a candidate's output with the reference.

use vstd::prelude::*;
use crate::error::{Buffer, HarnessError};

verus! {

/// How close a candidate value must be to the reference value.
#[derive(Clone, Copy, Debug, PartialEq, Eq, Structural)]
pub enum MatchPolicy {
    /// The two values are equal.
    Exact,
    /// The absolute error is at most one thousandth, or the error relative
    /// to the reference value is: whichever admits more.
    Tolerant,
}

/// What a comparison found.
#[derive(Clone, Copy, Debug, PartialEq, Eq, Structural)]
pub enum Comparison {
    /// Every element is within the policy.
    Pass,
    /// The first element outside the policy, with both values and their
    /// absolute difference.
    Mismatch { index: usize, reference: i128, candidate: i128, difference: u128 },
}

/// The tolerance is one part in this many.
pub const TOLERANCE_PARTS: u128 = 1000;

/// Absolute difference of two values.
pub open spec fn distance(reference: i128, candidate: i128) -> int {
    if reference >= candidate {
        reference - candidate
    } else {
        candidate - reference
    }
}

/// Absolute value.
pub open spec fn magnitude(value: i128) -> int {
    if value >= 0 {
        value as int
    } else {
        -value
    }
}

/// Whether a candidate value is acceptable for a reference value.
pub open spec fn agrees(policy: MatchPolicy, reference: i128, candidate: i128) -> bool {
    match policy {
        MatchPolicy::Exact => reference == candidate,
        MatchPolicy::Tolerant => {
            ||| TOLERANCE_PARTS * distance(reference, candidate) <= 1
            ||| TOLERANCE_PARTS * distance(reference, candidate) <= magnitude(reference)
        },
    }
}

/// Whether `index` is the first position at which the candidate is outside
/// the policy.
pub open spec fn first_disagreement(
    policy: MatchPolicy,
    reference: Seq<i128>,
    candidate: Seq<i128>,
    index: int,
) -> bool {
    &&& 0 <= index < reference.len()
    &&& !agrees(policy, reference[index], candidate[index])
    &&& forall|j: int| 0 <= j < index ==> agrees(policy, #[trigger] reference[j], candidate[j])
}

/// Whether every position is within the policy.
pub open spec fn all_agree(policy: MatchPolicy, reference: Seq<i128>, candidate: Seq<i128>)
    -> bool {
    forall|j: int|
        0 <= j < reference.len() ==> agrees(policy, #[trigger] reference[j], candidate[j])
}

/// Whether `found` is what comparing the two buffers must report.
pub open spec fn is_comparison(
    policy: MatchPolicy,
    reference: Seq<i128>,
    candidate: Seq<i128>,
    found: Comparison,
) -> bool {
    match found {
        Comparison::Pass => all_agree(policy, reference, candidate),
        Comparison::Mismatch { index, reference: r, candidate: c, difference } => {
            &&& first_disagreement(policy, reference, candidate, index as int)
            &&& r == reference[index as int]
            &&& c == candidate[index as int]
            &&& difference == distance(r, c)
        },
    }
}

/// What comparing the two buffers reports.
pub open spec fn spec_compare(policy: MatchPolicy, reference: Seq<i128>, candidate: Seq<i128>)
    -> Comparison {
    if all_agree(policy, reference, candidate) {
        Comparison::Pass
    } else {
        let index = choose|i: int| first_disagreement(policy, reference, candidate, i);
        Comparison::Mismatch {
            index: index as usize,
            reference: reference[index],
            candidate: candidate[index],
            difference: distance(reference[index], candidate[index]) as u128,
        }
    }
}

/// A finding that meets `is_comparison` is the one that `spec_compare` names.
pub proof fn lemma_comparison_is_spec(
    policy: MatchPolicy,
    reference: Seq<i128>,
    candidate: Seq<i128>,
    found: Comparison,
)
    requires
        is_comparison(policy, reference, candidate, found),
    ensures
        found == spec_compare(policy, reference, candidate),
{
    match found {
        Comparison::Pass => {},
        Comparison::Mismatch { index, .. } => {
            assert(first_disagreement(policy, reference, candidate, index as int));
            assert(!all_agree(policy, reference, candidate));
            let chosen = choose|i: int| first_disagreement(policy, reference, candidate, i);
            assert(first_disagreement(policy, reference, candidate, chosen));
            if chosen < index {
                assert(agrees(policy, reference[chosen], candidate[chosen]));
            } else if index < chosen {
                assert(agrees(policy, reference[index as int], candidate[index as int]));
            }
        },
    }
}

/// Absolute value of an `i128`, which always fits in `u128`.
pub fn magnitude_of(value: i128) -> (m: u128)
    ensures
        m == magnitude(value),
{
    if value >= 0 {
        value as u128
    } else {
        let below: i128 = -(value + 1);
        (below as u128) + 1
    }
}

/// Absolute difference of two `i128` values, which always fits in `u128`.
pub fn distance_of(reference: i128, candidate: i128) -> (d: u128)
    ensures
        d == distance(reference, candidate),
{
    let (high, low) = if reference >= candidate {
        (reference, candidate)
    } else {
        (candidate, reference)
    };
    if low >= 0 || high < 0 {
        (high - low) as u128
    } else {
        (high as u128) + magnitude_of(low)
    }
}

/// Decides whether one candidate value is acceptable.
pub fn value_agrees(policy: MatchPolicy, reference: i128, candidate: i128) -> (r: bool)
    ensures
        r == agrees(policy, reference, candidate),
{
    match policy {
        MatchPolicy::Exact => reference == candidate,
        MatchPolicy::Tolerant => {
            let d = distance_of(reference, candidate);
            let m = magnitude_of(reference);
            d == 0 || d <= m / TOLERANCE_PARTS
        },
    }
}

/// Compares a candidate's output with the reference, element by element, and
/// reports the first element outside the policy.
///
/// Buffers of different lengths are not compared.
pub fn compare(policy: MatchPolicy, reference: &[i128], candidate: &[i128]) -> (r: Result<
    Comparison,
    HarnessError,
>)
    ensures
        reference@.len() != candidate@.len() ==> r == Err::<Comparison, HarnessError>(
            HarnessError::LengthMismatch(Buffer::Output),
        ),
        reference@.len() == candidate@.len() ==> r is Ok && is_comparison(
            policy,
            reference@,
            candidate@,
            r->Ok_0,
        ),
        reference@.len() == candidate@.len() ==> r == Ok::<Comparison, HarnessError>(
            spec_compare(policy, reference@, candidate@),
        ),
{
    if reference.len() != candidate.len() {
        return Err(HarnessError::LengthMismatch(Buffer::Output));
    }
    let n = reference.len();
    let mut i: usize = 0;
    while i < n
        invariant
            i <= n,
            n == reference@.len(),
            n == candidate@.len(),
            forall|j: int| 0 <= j < i ==> agrees(policy, #[trigger] reference@[j], candidate@[j]),
        decreases n - i,
    {
        if !value_agrees(policy, reference[i], candidate[i]) {
            let difference = distance_of(reference[i], candidate[i]);
            let found = Comparison::Mismatch {
                index: i,
                reference: reference[i],
                candidate: candidate[i],
                difference,
            };
            proof {
                lemma_comparison_is_spec(policy, reference@, candidate@, found);
            }
            return Ok(found);
        }
        i = i + 1;
    }
    proof {
        lemma_comparison_is_spec(policy, reference@, candidate@, Comparison::Pass);
    }
    Ok(Comparison::Pass)
}

/// A comparison passes exactly when no position disagrees, and a reported
/// mismatch is the only one that can be reported.
pub proof fn lemma_comparison_unique(
    policy: MatchPolicy,
    reference: Seq<i128>,
    candidate: Seq<i128>,
    first: Comparison,
    second: Comparison,
)
    requires
        is_comparison(policy, reference, candidate, first),
        is_comparison(policy, reference, candidate, second),
    ensures
        first == second,
{
    match (first, second) {
        (
            Comparison::Mismatch { index: i, .. },
            Comparison::Mismatch { index: j, .. },
        ) => {
            if i < j {
                assert(agrees(policy, reference[i as int], candidate[i as int]));
            } else if j < i {
                assert(agrees(policy, reference[j as int], candidate[j as int]));
            }
        },
        (Comparison::Mismatch { index: i, .. }, Comparison::Pass) => {
            assert(agrees(policy, reference[i as int], candidate[i as int]));
        },
        (Comparison::Pass, Comparison::Mismatch { index: j, .. }) => {
            assert(agrees(policy, reference[j as int], candidate[j as int]));
        },
        _ => {},
    }
}

/// A buffer compared with itself passes under either policy.
pub proof fn lemma_identical_output_passes(policy: MatchPolicy, reference: Seq<i128>)
    ensures
        is_comparison(policy, reference, reference, Comparison::Pass),
{
}

/// Whatever the exact policy accepts, the tolerant policy accepts too.
pub proof fn lemma_exact_implies_tolerant(reference: i128, candidate: i128)
    requires
        agrees(MatchPolicy::Exact, reference, candidate),
    ensures
        agrees(MatchPolicy::Tolerant, reference, candidate),
{
}

} // verus!
