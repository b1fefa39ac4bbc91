//! The wall clock, as far as the game reads it: `std::time` is given to the
//! verifier here, without any claim about what the clock shows.

use vstd::prelude::*;
use std::time::Duration;
use std::time::SystemTime;
use std::time::SystemTimeError;

verus! {

/// `std::time::SystemTime`, a point in time as the system clock measures it.
/// The verifier sees nothing inside a value of it.
#[verifier::external_type_specification]
#[verifier::external_body]
pub struct ExSystemTime(SystemTime);

/// `std::time::SystemTimeError`, which `SystemTime::elapsed` returns when the
/// clock has gone backwards past the point in time asked about.
#[verifier::external_type_specification]
#[verifier::external_body]
pub struct ExSystemTimeError(SystemTimeError);

/// `SystemTime::now` reads the system clock. Nothing is claimed of the
/// value: it depends on when the call is made.
pub assume_specification[ SystemTime::now ]() -> (now: SystemTime);

/// `SystemTime::elapsed` measures the time from `time` to now, or fails when
/// the clock is behind `time`. Nothing is claimed of the outcome: it depends
/// on the clock.
pub assume_specification[ SystemTime::elapsed ](time: &SystemTime) -> (elapsed: Result<
    Duration,
    SystemTimeError,
>);

/// `Duration::as_secs` gives the whole seconds of a duration. A duration is
/// opaque here, so nothing is claimed of the number.
pub assume_specification[ Duration::as_secs ](duration: &Duration) -> (secs: u64);

/// `Duration::subsec_nanos` gives the part of a duration below one second,
/// in nanoseconds. A duration is opaque here, so nothing is claimed of the
/// number.
pub assume_specification[ Duration::subsec_nanos ](duration: &Duration) -> (nanos: u32);

} // verus!
