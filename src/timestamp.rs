//! Timestamps as the remote platform reports them, in seconds or in
//! milliseconds.
use vstd::prelude::*;

verus! {

/// Timestamps at or above this value are taken to be in milliseconds.
pub const MILLISECOND_THRESHOLD: u64 = 1000000000000;

/// A timestamp in seconds: zero means absent, and a millisecond value (13
/// digits) is divided down to seconds.
pub open spec fn seconds_of(ts: u64) -> Option<u64> {
    if ts == 0 {
        None
    } else if ts >= MILLISECOND_THRESHOLD {
        Some(ts / 1000)
    } else {
        Some(ts)
    }
}

/// A timestamp in seconds: zero means absent, and a millisecond value (13
/// digits) is divided down to seconds.
pub fn normalize_timestamp_seconds(ts: u64) -> (r: Option<u64>)
    ensures
        r == seconds_of(ts),
        ts == 0 ==> r is None,
        0 < ts < MILLISECOND_THRESHOLD ==> r == Some(ts),
        ts >= MILLISECOND_THRESHOLD ==> r == Some(ts / 1000),
{
    if ts == 0 {
        return None;
    }
    if ts >= MILLISECOND_THRESHOLD {
        return Some(ts / 1000);
    }
    Some(ts)
}

} // verus!
