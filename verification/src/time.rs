//! Wall-clock access.
//!
//! Every classification function in this crate takes the current time as an
//! explicit argument, so that its contract holds for every possible reading
//! of the clock. These functions are the only place the clock itself is read.

use vstd::prelude::*;

verus! {

/// Relies on std::time::SystemTime::now: the wall-clock reading, converted to
/// whole milliseconds since the Unix epoch. Nothing can be promised of the
/// value, so the callers state what holds for every reading.
#[verifier::external_body]
fn clock_now_ms() -> u64 {
    std::time::SystemTime::now()
        .duration_since(std::time::UNIX_EPOCH)
        .map(|d| d.as_millis() as u64)
        .unwrap_or(0)
}

/// Current wall-clock time in milliseconds since the Unix epoch, as a signed
/// value (the storage layer keeps signed timestamp columns).
pub fn get_timestamp() -> i64 {
    let now = clock_now_ms();
    if now > i64::MAX as u64 {
        i64::MAX
    } else {
        now as i64
    }
}

/// Current wall-clock time in milliseconds since the Unix epoch.
pub fn get_current_time_ms() -> u64 {
    clock_now_ms()
}

} // verus!
