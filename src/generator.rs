//! Synthetic series: independent uniform values, or a bounded random walk.
use vstd::prelude::*;
use rand::Rng;
use rand::rngs::StdRng;
use crate::series::{Sample, indexed_timestamps};

verus! {

/// rand's seedable standard generator, carried through as an opaque value.
#[verifier::external_type_specification]
#[verifier::external_body]
pub struct ExStdRng(StdRng);

/// Why a generator request was refused.
#[derive(Debug, Clone, Copy, PartialEq, Eq, Structural)]
pub enum GeneratorError {
    /// The smallest sample count exceeds the largest.
    InvalidCountRange,
    /// The smallest value exceeds the largest.
    InvalidValueRange,
    /// A random walk was asked for with a negative step bound.
    NegativeStep,
}

/// The error for a request, checked in this order, or none when it is valid.
pub open spec fn request_error(
    max_count: usize,
    min_count: usize,
    max_value: i32,
    min_value: i32,
    allow_variance: bool,
    variance: i32,
) -> Option<GeneratorError> {
    if min_count > max_count {
        Some(GeneratorError::InvalidCountRange)
    } else if min_value > max_value {
        Some(GeneratorError::InvalidValueRange)
    } else if allow_variance && variance < 0 {
        Some(GeneratorError::NegativeStep)
    } else {
        None
    }
}

/// One step of the walk: the previous value moved by `delta`, clamped into `[lo, hi]`.
pub open spec fn walk_value(last: int, delta: int, lo: int, hi: int) -> int {
    if last + delta > hi {
        hi
    } else if last + delta < lo {
        lo
    } else {
        last + delta
    }
}

/// Absolute value.
pub open spec fn abs(x: int) -> int {
    if x < 0 {
        -x
    } else {
        x
    }
}

/// Every value of `s` lies in `[lo, hi]`.
pub open spec fn values_within(s: Seq<Sample>, lo: int, hi: int) -> bool {
    forall|k: int| 0 <= k < s.len() ==> lo <= #[trigger] s[k].1 <= hi
}

/// Consecutive values of `s` differ by at most `step`.
pub open spec fn steps_within(s: Seq<Sample>, step: int) -> bool {
    forall|k: int| 0 < k < s.len() ==> abs(#[trigger] s[k].1 - s[k - 1].1) <= step
}

/// What holds of every series the generator may produce for a valid request.
pub open spec fn generated_series(
    s: Seq<Sample>,
    max_count: usize,
    min_count: usize,
    max_value: i32,
    min_value: i32,
    allow_variance: bool,
    variance: i32,
) -> bool {
    &&& min_count <= s.len() <= max_count
    &&& indexed_timestamps(s)
    &&& values_within(s, min_value as int, max_value as int)
    &&& allow_variance ==> steps_within(s, variance as int)
}

/// Relies on rand's `Rng::gen_range` over an inclusive `usize` range: the value
/// lies in the range. It panics on an empty range, which `requires` excludes.
#[verifier::external_body]
fn draw_usize(rng: &mut StdRng, low: usize, high: usize) -> (r: usize)
    requires
        low <= high,
    ensures
        low <= r <= high,
{
    rng.gen_range(low..=high)
}

/// Relies on rand's `Rng::gen_range` over an inclusive `i32` range: the value
/// lies in the range. It panics on an empty range, which `requires` excludes.
#[verifier::external_body]
fn draw_i32(rng: &mut StdRng, low: i32, high: i32) -> (r: i32)
    requires
        low <= high,
    ensures
        low <= r <= high,
{
    rng.gen_range(low..=high)
}

/// The next value of a random walk from `last`, perturbed by `delta` and
/// clamped into `[min_value, max_value]`. From a value in range, the step
/// taken is never longer than the perturbation.
pub fn next_walk_value(last: i32, delta: i32, min_value: i32, max_value: i32) -> (r: i32)
    requires
        min_value <= max_value,
    ensures
        r == walk_value(last as int, delta as int, min_value as int, max_value as int),
        min_value <= r <= max_value,
        min_value <= last <= max_value ==> abs(r - last) <= abs(delta as int),
{
    let moved = last as i64 + delta as i64;
    if moved > max_value as i64 {
        max_value
    } else if moved < min_value as i64 {
        min_value
    } else {
        moved as i32
    }
}

/// Generates a series with timestamps `0, 1, ..., count - 1`, the count drawn
/// uniformly from `[min_stock_amount, max_stock_amount]`. Without variance each
/// value is drawn uniformly from `[min_stock_value, max_stock_value]`; with it,
/// the first value is, and each later one is the previous moved by a uniform
/// draw from `[-variance, variance]`, clamped into the value range.
pub fn random_stock_sample(
    rng: &mut StdRng,
    max_stock_amount: usize,
    min_stock_amount: usize,
    max_stock_value: i32,
    min_stock_value: i32,
    allow_variance: bool,
    variance: i32,
) -> (r: Result<Vec<Sample>, GeneratorError>)
    ensures
        match request_error(max_stock_amount, min_stock_amount, max_stock_value, min_stock_value, allow_variance, variance) {
            Some(e) => r == Err::<Vec<Sample>, GeneratorError>(e),
            None => r is Ok && generated_series(r->Ok_0@, max_stock_amount, min_stock_amount, max_stock_value, min_stock_value, allow_variance, variance),
        },
{
    if min_stock_amount > max_stock_amount {
        return Err(GeneratorError::InvalidCountRange);
    }
    if min_stock_value > max_stock_value {
        return Err(GeneratorError::InvalidValueRange);
    }
    if allow_variance && variance < 0 {
        return Err(GeneratorError::NegativeStep);
    }
    let mut out: Vec<Sample> = Vec::new();
    let count = draw_usize(rng, min_stock_amount, max_stock_amount);
    if count == 0 {
        return Ok(out);
    }
    if allow_variance {
        let mut last = draw_i32(rng, min_stock_value, max_stock_value);
        out.push((0, last));
        let mut k: usize = 1;
        while k < count
            invariant
                1 <= k <= count,
                out@.len() == k,
                last == out@[k - 1].1,
                0 <= variance,
                min_stock_value <= max_stock_value,
                indexed_timestamps(out@),
                values_within(out@, min_stock_value as int, max_stock_value as int),
                steps_within(out@, variance as int),
            decreases count - k,
        {
            let delta = draw_i32(rng, -variance, variance);
            let next = next_walk_value(last, delta, min_stock_value, max_stock_value);
            out.push((k, next));
            last = next;
            k = k + 1;
        }
    } else {
        let mut k: usize = 0;
        while k < count
            invariant
                k <= count,
                out@.len() == k,
                min_stock_value <= max_stock_value,
                indexed_timestamps(out@),
                values_within(out@, min_stock_value as int, max_stock_value as int),
            decreases count - k,
        {
            let value = draw_i32(rng, min_stock_value, max_stock_value);
            out.push((k, value));
            k = k + 1;
        }
    }
    Ok(out)
}

} // verus!
