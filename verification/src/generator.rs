//! Synthetic workload buffers drawn from one explicit random generator.
//!
//! Workloads are integer-valued, so that the host reference is exact. The
//! unit of the two distributions is the `amplitude` that the caller picks:
//! the signed one covers `-amplitude..=amplitude`, the unsigned one
//! `0..amplitude`.

use vstd::prelude::*;
use rand::rngs::StdRng;
use rand::Rng;
use crate::error::HarnessError;

verus! {

/// The standard generator of the `rand` crate. Its state is opaque here.
#[verifier::external_type_specification]
#[verifier::external_body]
pub struct ExStdRng(StdRng);

/// `rand::Rng::gen_range` on the closed range `low..=high`. Trusted: the
/// value drawn lies in the range. Which value it is depends on the
/// generator's state, of which nothing is claimed.
#[verifier::external_body]
fn draw_between(rng: &mut StdRng, low: i32, high: i32) -> (r: i32)
    requires
        low <= high,
    ensures
        low <= r <= high,
{
    rng.gen_range(low..=high)
}

/// Every element lies between `low` and `high`, both included.
pub open spec fn all_between(values: Seq<i32>, low: int, high: int) -> bool {
    forall|i: int| 0 <= i < values.len() ==> low <= #[trigger] values[i] <= high
}

/// Draws the next `n` values from the generator, each between `low` and
/// `high`.
fn draw_buffer(rng: &mut StdRng, n: usize, low: i32, high: i32) -> (values: Vec<i32>)
    requires
        low <= high,
    ensures
        values@.len() == n,
        all_between(values@, low as int, high as int),
{
    let mut values: Vec<i32> = Vec::new();
    let mut i: usize = 0;
    while i < n
        invariant
            i <= n,
            low <= high,
            values@.len() == i,
            all_between(values@, low as int, high as int),
        decreases n - i,
    {
        let value = draw_between(rng, low, high);
        values.push(value);
        i = i + 1;
    }
    values
}

/// Signed-uniform buffer: `n` integers drawn from the closed interval
/// `-amplitude..=amplitude`. Used for inputs, weights, biases and gradients.
///
/// An amplitude below one is refused, and nothing is drawn.
pub fn make_random_signed(rng: &mut StdRng, n: usize, amplitude: i32) -> (r: Result<
    Vec<i32>,
    HarnessError,
>)
    ensures
        amplitude < 1 ==> r == Err::<Vec<i32>, HarnessError>(HarnessError::OutOfRange),
        amplitude >= 1 ==> r is Ok && r->Ok_0@.len() == n && all_between(
            r->Ok_0@,
            -amplitude,
            amplitude as int,
        ),
{
    if amplitude < 1 {
        return Err(HarnessError::OutOfRange);
    }
    Ok(draw_buffer(rng, n, -amplitude, amplitude))
}

/// Unit-uniform buffer: `n` integers drawn from the half-open interval
/// `0..amplitude`. Used for moment accumulators, which are not negative.
///
/// An amplitude below one is refused, and nothing is drawn.
pub fn make_random_unit(rng: &mut StdRng, n: usize, amplitude: i32) -> (r: Result<
    Vec<i32>,
    HarnessError,
>)
    ensures
        amplitude < 1 ==> r == Err::<Vec<i32>, HarnessError>(HarnessError::OutOfRange),
        amplitude >= 1 ==> r is Ok && r->Ok_0@.len() == n && all_between(
            r->Ok_0@,
            0,
            amplitude - 1,
        ),
{
    if amplitude < 1 {
        return Err(HarnessError::OutOfRange);
    }
    Ok(draw_buffer(rng, n, 0, amplitude - 1))
}

} // verus!
