//! The monotonic clock of the operating system, through `std::time::Instant`.
//!
//! What these calls return depends on when they are made, so nothing is
//! promised of their values.

use std::time::Instant;
use vstd::prelude::*;

verus! {

#[verifier::external_type_specification]
#[verifier::external_body]
pub struct ExInstant(Instant);

/// `Instant::now`: the current reading of the monotonic clock.
#[verifier::external_body]
pub(crate) fn instant_now() -> Instant {
    Instant::now()
}

/// `Instant::elapsed`, in whole microseconds: the time since `start`.
#[verifier::external_body]
pub(crate) fn micros_elapsed(start: &Instant) -> u128 {
    start.elapsed().as_micros()
}

/// A count of microseconds as an `i64`, saturated at `i64::MAX`.
pub open spec fn spec_micros_to_i64(m: u128) -> i64 {
    if m <= i64::MAX as u128 {
        m as i64
    } else {
        i64::MAX
    }
}

pub fn micros_to_i64(m: u128) -> (r: i64)
    ensures
        r == spec_micros_to_i64(m),
        r >= 0,
{
    if m <= i64::MAX as u128 {
        m as i64
    } else {
        i64::MAX
    }
}

} // verus!
