//! The wall clock.

use vstd::prelude::*;

verus! {

/// Milliseconds since the Unix epoch for a reading of the clock, zero where the
/// clock stands before the epoch.
pub open spec fn unix_ms(reading: Option<u128>) -> u64 {
    match reading {
        Some(ms) => ms as u64,
        None => 0,
    }
}

/// `SystemTime::elapsed` since `UNIX_EPOCH`, in whole milliseconds; `None` where
/// the clock stands before the epoch. Nothing is promised of the reading.
#[verifier::external_body]
fn since_epoch() -> (r: Option<u128>) {
    match std::time::UNIX_EPOCH.elapsed() {
        Ok(elapsed) => Some(elapsed.as_millis()),
        Err(_) => None,
    }
}

/// Milliseconds since the Unix epoch for a reading of the clock.
pub fn to_unix_ms(reading: Option<u128>) -> (r: u64)
    ensures
        r == unix_ms(reading),
{
    match reading {
        Some(ms) => ms as u64,
        None => 0,
    }
}

/// Wall-clock milliseconds since the Unix epoch.
///
/// Carried as metadata only. Ordering decisions use Lamport stamps, because a
/// machine that has been powered off for a week cannot be trusted to agree with
/// its peers about the time.
pub fn now_ms() -> (r: u64) {
    to_unix_ms(since_epoch())
}

/// A reading that fits is taken as it is, and a clock before the epoch reads zero.
pub proof fn readings_are_taken_as_they_are(ms: u64)
    ensures
        unix_ms(Some(ms as u128)) == ms,
        unix_ms(None) == 0,
{
}

} // verus!
