//! Reading the system clock.
use std::time::{Duration, SystemTime, UNIX_EPOCH};
use vstd::prelude::*;

verus! {

#[verifier::external_type_specification]
#[verifier::external_body]
pub struct ExSystemTime(SystemTime);

/// Relies on `SystemTime::now`: the current reading of the system clock.
#[verifier::external_body]
fn system_now() -> (r: SystemTime) {
    SystemTime::now()
}

/// Relies on `SystemTime::duration_since`: the time from the Unix epoch to
/// `t`, or `None` where `t` lies before the epoch.
#[verifier::external_body]
fn since_unix_epoch(t: &SystemTime) -> (r: Option<Duration>) {
    t.duration_since(UNIX_EPOCH).ok()
}

/// Relies on `Duration::as_millis`: the whole milliseconds in `d`.
#[verifier::external_body]
fn duration_millis(d: &Duration) -> (r: u128) {
    d.as_millis()
}

/// The time elapsed since the Unix epoch, or `None` when the system clock
/// reads a moment before it.
pub fn get_unix_timestamp() -> (r: Option<Duration>) {
    let now = system_now();
    since_unix_epoch(&now)
}

/// Milliseconds elapsed since the Unix epoch, or `None` when the system clock
/// reads a moment before it.
pub fn unix_millis() -> (r: Option<u128>) {
    match get_unix_timestamp() {
        Some(d) => Some(duration_millis(&d)),
        None => None,
    }
}

} // verus!
