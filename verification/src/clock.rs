//! The wall clock, read in milliseconds since the Unix epoch.

use vstd::prelude::*;
use std::time::{Duration, SystemTime};

verus! {

#[verifier::external_type_specification]
#[verifier::external_body]
pub struct ExSystemTime(SystemTime);

/// Calls `std::time::SystemTime::now`. Nothing is stated of the reading.
#[verifier::external_body]
fn system_time_now() -> (t: SystemTime) {
    SystemTime::now()
}

/// Calls `SystemTime::duration_since` with `UNIX_EPOCH`; `None` stands for its
/// error (the time lies before the epoch). Nothing is stated of the outcome.
#[verifier::external_body]
fn duration_since_unix_epoch(t: &SystemTime) -> (d: Option<Duration>) {
    t.duration_since(std::time::UNIX_EPOCH).ok()
}

/// Calls `Duration::as_millis`. Nothing is stated of the value.
#[verifier::external_body]
fn duration_millis(d: &Duration) -> (ms: u128) {
    d.as_millis()
}

/// Milliseconds since the Unix epoch, or `None` where the clock reads a time
/// before it.
pub fn millis_since_epoch() -> (ms: Option<u128>) {
    let now = system_time_now();
    match duration_since_unix_epoch(&now) {
        Some(d) => Some(duration_millis(&d)),
        None => None,
    }
}

} // verus!
