//! The wall clock: Unix time and the local time of day.
use vstd::prelude::*;
use std::time::{Instant, SystemTime, UNIX_EPOCH};

verus! {

/// Seconds since the Unix epoch
/// (`SystemTime::now().duration_since(UNIX_EPOCH)`), 0 when the clock reads
/// earlier than the epoch. Nothing is promised of the value.
#[verifier::external_body]
pub(crate) fn unix_secs() -> (r: u64) {
    match SystemTime::now().duration_since(UNIX_EPOCH) {
        Ok(d) => d.as_secs(),
        Err(_) => 0,
    }
}

/// Milliseconds since the Unix epoch, truncated to 64 bits, 0 when the
/// clock reads earlier than the epoch. Nothing is promised of the value.
#[verifier::external_body]
pub(crate) fn unix_millis() -> (r: u64) {
    match SystemTime::now().duration_since(UNIX_EPOCH) {
        Ok(d) => d.as_millis() as u64,
        Err(_) => 0,
    }
}

/// The local time of day as `HH:MM:SS`
/// (`chrono::Local::now().format("%H:%M:%S")`). Nothing is promised of the
/// text.
#[verifier::external_body]
pub(crate) fn local_hms() -> (r: String) {
    chrono::Local::now().format("%H:%M:%S").to_string()
}

#[verifier::external_type_specification]
#[verifier::external_body]
pub struct ExInstant(Instant);

/// The current instant of the monotonic clock (`Instant::now`).
#[verifier::external_body]
pub(crate) fn instant_now() -> (r: Instant) {
    Instant::now()
}

/// The nanoseconds of the monotonic clock since `t`
/// (`t.elapsed().as_nanos()`). Nothing is promised of the answer: it
/// depends on the clock.
#[verifier::external_body]
pub(crate) fn elapsed_nanos(t: &Instant) -> (r: u128) {
    t.elapsed().as_nanos()
}

} // verus!
