//! The system clock.

use std::time::{Duration, SystemTime, SystemTimeError};
use vstd::prelude::*;

verus! {

/// A point in time of the system clock.
#[verifier::external_type_specification]
#[verifier::external_body]
pub struct ExSystemTime(SystemTime);

/// What `duration_since` gives where the other point in time is the later.
#[verifier::external_type_specification]
#[verifier::external_body]
pub struct ExSystemTimeError(SystemTimeError);

/// `SystemTime::now` reads the system clock. Nothing is claimed of the
/// result: it differs from call to call.
pub assume_specification[ SystemTime::now ]() -> (now: SystemTime);

/// `Duration::as_secs` gives the whole seconds of a duration. Nothing is
/// claimed of the result: a duration is not looked into.
pub assume_specification[ Duration::as_secs ](duration: &Duration) -> (secs: u64);

/// Calls `SystemTime::duration_since` with the Unix epoch: the time from the
/// epoch to `time`, or an error where `time` lies before it. Trusted, and
/// nothing is claimed of the result.
#[verifier::external_body]
fn since_epoch(time: &SystemTime) -> (elapsed: Result<Duration, SystemTimeError>) {
    time.duration_since(std::time::UNIX_EPOCH)
}

/// The whole seconds since the Unix epoch by the system clock, 0 where the
/// clock stands before it.
pub(crate) fn unix_time() -> (secs: u64) {
    let now = SystemTime::now();
    match since_epoch(&now) {
        Ok(elapsed) => elapsed.as_secs(),
        Err(_) => 0,
    }
}

} // verus!
