//! Integer time arithmetic shared by the buffers, caches and clocks.

use vstd::prelude::*;

use crate::types::Pts;

verus! {

/// `a + b`, saturated to the range of `i64`.
pub open spec fn spec_add_micros(a: int, b: int) -> Pts {
    if a + b > i64::MAX {
        i64::MAX
    } else if a + b < i64::MIN {
        i64::MIN
    } else {
        (a + b) as i64
    }
}

/// Adds two microsecond values, saturating at the bounds of `i64`.
pub fn add_micros(a: i64, b: i64) -> (r: i64)
    ensures
        r == spec_add_micros(a as int, b as int),
{
    let s: i128 = a as i128 + b as i128;
    if s > i64::MAX as i128 {
        i64::MAX
    } else if s < i64::MIN as i128 {
        i64::MIN
    } else {
        s as i64
    }
}

/// Number of interleaved stereo samples in `micros` microseconds at `rate` Hz,
/// rounded down and saturated at `usize::MAX`.
pub open spec fn spec_capacity_samples(micros: nat, rate: nat) -> nat {
    if micros * rate * 2 / 1_000_000 <= usize::MAX {
        micros * rate * 2 / 1_000_000
    } else {
        usize::MAX as nat
    }
}

pub fn capacity_samples(micros: u64, rate: u32) -> (r: usize)
    ensures
        r == spec_capacity_samples(micros as nat, rate as nat),
{
    assert(micros * rate * 2 <= u64::MAX * u32::MAX * 2) by (nonlinear_arith);
    let total: u128 = micros as u128 * rate as u128 * 2;
    let q: u128 = total / 1_000_000;
    if q <= usize::MAX as u128 {
        q as usize
    } else {
        usize::MAX
    }
}

} // verus!
