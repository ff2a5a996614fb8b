//! The wall clock, read through `std::time`.
use vstd::prelude::*;

use std::time::{Duration, SystemTime, UNIX_EPOCH};

verus! {

#[verifier::external_type_specification]
#[verifier::external_body]
pub struct ExSystemTime(SystemTime);

/// `SystemTime::now`: the current time of the system clock. Nothing is
/// stated of it: it depends on the clock.
#[verifier::external_body]
fn system_now() -> SystemTime {
    SystemTime::now()
}

/// `SystemTime::duration_since` the Unix epoch: nothing for a time before
/// it. Nothing is stated of the result: it depends on the time given.
#[verifier::external_body]
fn since_epoch(t: &SystemTime) -> Option<Duration> {
    t.duration_since(UNIX_EPOCH).ok()
}

/// `Duration::as_secs`: the whole seconds of a duration, which is opaque
/// here, so nothing is stated of them.
#[verifier::external_body]
fn whole_seconds(d: &Duration) -> u64 {
    d.as_secs()
}

/// The time to report for a clock reading given in whole seconds since the
/// Unix epoch (`None` for a reading before the epoch): the reading itself,
/// or 0.
pub fn seconds_or_zero(since_epoch: Option<u64>) -> (r: u64)
    ensures
        r == match since_epoch {
            Some(s) => s,
            None => 0,
        },
{
    match since_epoch {
        Some(s) => s,
        None => 0,
    }
}

/// The current time in whole seconds since the Unix epoch, 0 when the clock
/// is set before it (see [`seconds_or_zero`]). Nothing is stated of the
/// value: it is the clock's reading.
pub fn unix_now() -> u64 {
    let reading = match since_epoch(&system_now()) {
        Some(d) => Some(whole_seconds(&d)),
        None => None,
    };
    seconds_or_zero(reading)
}

} // verus!
