//! Reading the clocks of the machine.  What a clock says cannot be known in
//! advance, so nothing is claimed of the values read here; the functions
//! that use them take the time as an argument wherever it matters.
use vstd::prelude::*;
use std::time::{Instant, UNIX_EPOCH};

verus! {

/// `std::time::Instant`, a point on the monotonic clock.  Nothing is known
/// of what it holds.
#[verifier::external_type_specification]
#[verifier::external_body]
pub struct ExInstant(Instant);

/// `Instant::now` reads the monotonic clock.  Nothing is claimed of the
/// value.
pub assume_specification[ Instant::now ]() -> Instant;

/// The whole milliseconds that `Instant::elapsed` measures since `start`.
/// Nothing is claimed of the value.
#[verifier::external_body]
pub(crate) fn millis_since(start: &Instant) -> u128 {
    start.elapsed().as_millis()
}

/// The whole seconds that `SystemTime::elapsed` measures since the Unix
/// epoch, and zero where the clock stands before it.  Nothing is claimed of
/// the value.
#[verifier::external_body]
pub(crate) fn unix_time_seconds() -> u64 {
    match UNIX_EPOCH.elapsed() {
        Ok(elapsed) => elapsed.as_secs(),
        Err(_) => 0,
    }
}

/// The whole seconds in a number of milliseconds, held to what a `u64`
/// can hold.
pub fn whole_seconds(millis: u128) -> (seconds: u64)
    ensures
        seconds == (if millis / 1000 > u64::MAX {
            u64::MAX as int
        } else {
            (millis / 1000) as int
        }),
{
    let seconds: u128 = millis / 1000;
    if seconds > u64::MAX as u128 {
        u64::MAX
    } else {
        seconds as u64
    }
}

/// The whole seconds that have passed since `start`.  Nothing is known of
/// the value.
pub(crate) fn seconds_since(start: &Instant) -> u64 {
    whole_seconds(millis_since(start))
}

} // verus!
