//! The one place where the crate reads the wall clock.

use vstd::prelude::*;

verus! {

/// Relies on std::time::SystemTime::now: microseconds between the Unix epoch
/// and the current wall-clock reading, 0 when the clock reads earlier than
/// the epoch, truncated to 64 bits. Nothing is promised of the value: it
/// depends on the clock.
#[verifier::external_body]
pub(crate) fn now_micros() -> u64 {
    std::time::SystemTime::now()
        .duration_since(std::time::UNIX_EPOCH)
        .unwrap_or_default()
        .as_micros() as u64
}

/// Milliseconds since the Unix epoch, derived from the same clock reading.
pub(crate) fn now_millis() -> u64 {
    now_micros() / 1000
}

/// Seconds since the Unix epoch, derived from the same clock reading.
pub(crate) fn now_secs() -> u64 {
    now_micros() / 1_000_000
}

} // verus!
