//! The pseudo-random numbers of the simulation, drawn from macroquad's
//! global generator (`quad_rand`). Each draw advances the generator's hidden
//! state, so two calls on the same arguments may give different results: the
//! contracts state only what holds of every outcome.
use vstd::prelude::*;

verus! {

/// Calls `macroquad::rand::rand`, which returns the next value of the
/// generator. Any `u32` may come back, so nothing is stated of it.
#[verifier::external_body]
pub(crate) fn rand_u32() -> u32 {
    macroquad::rand::rand()
}

/// Calls `macroquad::rand::gen_range::<u32>(low, high)`. The source computes
/// `low + (high - low) * (rand() / 2^32)` in `f64` and truncates it to `u32`.
/// For ranges bounded by `2^20` that sum is exact and below `high`, so the
/// result lies in `[low, high)`, and is `low` when the range is empty.
#[verifier::external_body]
pub(crate) fn gen_range_u32(low: u32, high: u32) -> (r: u32)
    requires
        low <= high <= 0x10_0000,
    ensures
        low < high ==> low <= r < high,
        low == high ==> r == low,
{
    macroquad::rand::gen_range(low, high)
}

/// Calls `macroquad::rand::gen_range::<i16>(low, high)`: the same `f64` sum,
/// truncated toward zero. The result lies between the bounds (inclusive); for
/// a non-negative `low` below `high` it is below `high`.
#[verifier::external_body]
pub(crate) fn gen_range_i16(low: i16, high: i16) -> (r: i16)
    ensures
        low <= high ==> low <= r <= high,
        high < low ==> high <= r <= low,
        0 <= low < high ==> r < high,
{
    macroquad::rand::gen_range(low, high)
}

} // verus!
