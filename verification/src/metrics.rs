//! The sampling-rate metric.

use vstd::prelude::*;

verus! {

/// `numerator / denominator` rounded to the nearest integer, halves upwards.
pub open spec fn rounded_ratio(numerator: int, denominator: int) -> int
    recommends
        denominator > 0,
{
    (2 * numerator + denominator) / (2 * denominator)
}

/// Sampling attempts per second, rounded to the nearest integer, when
/// `attempts` attempts took `elapsed_nanos` nanoseconds.
pub open spec fn sampling_rate_of(attempts: int, elapsed_nanos: int) -> int
    recommends
        elapsed_nanos > 0,
{
    rounded_ratio(attempts * 1_000_000_000, elapsed_nanos)
}

/// Sampling attempts per second over `elapsed_nanos` nanoseconds, rounded to
/// the nearest integer; `None` where no time has passed.
pub fn sampling_rate(attempts: u64, elapsed_nanos: u64) -> (fps: Option<u128>)
    ensures
        fps is Some <==> elapsed_nanos > 0,
        fps matches Some(r) ==> r == sampling_rate_of(attempts as int, elapsed_nanos as int),
{
    if elapsed_nanos == 0 {
        return None;
    }
    let scaled: u128 = (attempts as u128) * 1_000_000_000u128;
    let elapsed: u128 = elapsed_nanos as u128;
    Some((2 * scaled + elapsed) / (2 * elapsed))
}

/// The sampling rate is never negative and lies within one half of the exact
/// quotient of attempts and elapsed seconds: it is that quotient's nearest
/// integer.
pub proof fn lemma_rate_is_nearest(attempts: int, elapsed_nanos: int)
    requires
        attempts >= 0,
        elapsed_nanos > 0,
    ensures
        sampling_rate_of(attempts, elapsed_nanos) >= 0,
        2 * sampling_rate_of(attempts, elapsed_nanos) * elapsed_nanos - elapsed_nanos <= 2 * (
        attempts * 1_000_000_000),
        2 * (attempts * 1_000_000_000) < 2 * sampling_rate_of(attempts, elapsed_nanos)
            * elapsed_nanos + elapsed_nanos,
{
    let n = attempts * 1_000_000_000;
    let d = elapsed_nanos;
    let r = (2 * n + d) / (2 * d);
    assert(r >= 0 && 2 * r * d - d <= 2 * n && 2 * n < 2 * r * d + d) by (nonlinear_arith)
        requires
            n >= 0,
            d > 0,
            r == (2 * n + d) / (2 * d),
    ;
}

} // verus!
