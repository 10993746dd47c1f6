//! The time of day.
use vstd::prelude::*;

verus! {

/// Reads the system clock (`std::time::SystemTime::now`) in nanoseconds since the epoch;
/// `None` where it stands before it. Nothing is claimed of the reading.
#[verifier::external_body]
pub(crate) fn since_epoch() -> (r: Option<u128>) {
    std::time::SystemTime::now().duration_since(std::time::UNIX_EPOCH).ok().map(|d| d.as_nanos())
}

/// The whole seconds in a reading of the clock; 0 where it stands before the epoch, and never
/// more than an `i64` holds.
pub open spec fn seconds_in(reading: Option<u128>) -> i64 {
    match reading {
        Some(n) => if n / 1_000_000_000 <= i64::MAX {
            (n / 1_000_000_000) as i64
        } else {
            i64::MAX
        },
        None => 0,
    }
}

/// The whole milliseconds in a reading of the clock; 0 where it stands before the epoch.
pub open spec fn millis_in(reading: Option<u128>) -> i64 {
    match reading {
        Some(n) => (n / 1_000_000) as i64,
        None => 0,
    }
}

/// The whole seconds in a reading of the clock.
pub fn to_seconds(reading: Option<u128>) -> (r: i64)
    ensures
        r == seconds_in(reading),
        r >= 0,
{
    match reading {
        Some(n) => if n / 1_000_000_000 <= i64::MAX as u128 {
            (n / 1_000_000_000) as i64
        } else {
            i64::MAX
        },
        None => 0,
    }
}

/// The whole milliseconds in a reading of the clock.
pub fn to_millis(reading: Option<u128>) -> (r: i64)
    ensures
        r == millis_in(reading),
{
    match reading {
        Some(n) => (n / 1_000_000) as i64,
        None => 0,
    }
}

/// The seconds since the epoch.
pub fn now_seconds() -> (r: i64)
    ensures
        r >= 0,
        exists|reading: Option<u128>| r == #[trigger] seconds_in(reading),
{
    to_seconds(since_epoch())
}

/// The milliseconds since the epoch.
pub fn now_ms() -> (r: i64)
    ensures
        exists|reading: Option<u128>| r == #[trigger] millis_in(reading),
{
    to_millis(since_epoch())
}

} // verus!
