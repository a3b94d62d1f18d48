//! The wall clock, read in whole milliseconds or nanoseconds since the Unix
//! epoch. Nothing is known of the values: they are whatever the clock says.

use std::time::Duration;
use vstd::prelude::*;

verus! {

/// The time elapsed since the Unix epoch, or `None` when the clock is set
/// before it.
///
/// Trusted: `SystemTime::elapsed` on `UNIX_EPOCH`, its error turned into
/// `None`. Nothing is stated of the duration: it depends on the clock.
#[verifier::external_body]
fn time_since_epoch() -> Option<Duration> {
    std::time::UNIX_EPOCH.elapsed().ok()
}

/// The whole milliseconds of a duration.
///
/// Trusted: `Duration::as_millis`. Nothing is stated: the duration is
/// opaque here.
#[verifier::external_body]
fn duration_millis(d: &Duration) -> u128 {
    d.as_millis()
}

/// The whole nanoseconds of a duration.
///
/// Trusted: `Duration::as_nanos`. Nothing is stated: the duration is opaque
/// here.
#[verifier::external_body]
fn duration_nanos(d: &Duration) -> u128 {
    d.as_nanos()
}

/// Milliseconds since the Unix epoch, truncated to 64 bits; 0 when the clock
/// is set before the epoch.
pub(crate) fn unix_millis() -> u64 {
    match time_since_epoch() {
        Some(d) => {
            let ms = duration_millis(&d);
            #[verifier::truncate]
            (ms as u64)
        },
        None => 0,
    }
}

/// Nanoseconds since the Unix epoch, truncated to 64 bits; 0 when the clock
/// is set before the epoch.
pub(crate) fn unix_nanos() -> u64 {
    match time_since_epoch() {
        Some(d) => {
            let ns = duration_nanos(&d);
            #[verifier::truncate]
            (ns as u64)
        },
        None => 0,
    }
}

} // verus!
