//! A monotonic clock read as nanoseconds since a chosen origin.
//!
//! What a clock returns depends on when it is read, so nothing is stated
//! about the values: code that uses them is verified for every reading.

use std::time::Instant;
use vstd::prelude::*;

verus! {

#[verifier::external_type_specification]
#[verifier::external_body]
pub struct ExInstant(Instant);

/// `Instant::now`: the present moment.
#[verifier::external_body]
pub(crate) fn clock_start() -> (origin: Instant) {
    Instant::now()
}

/// `Instant::elapsed`: the time that has passed since `origin`.
#[verifier::external_body]
pub(crate) fn clock_elapsed(origin: &Instant) -> (d: core::time::Duration) {
    origin.elapsed()
}

/// `Duration::as_nanos`: the whole number of nanoseconds in `d`.
#[verifier::external_body]
pub(crate) fn duration_nanos(d: &core::time::Duration) -> (n: u128) {
    d.as_nanos()
}

} // verus!
