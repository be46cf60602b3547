//! The wall clock.

use vstd::prelude::*;

verus! {

/// The latest time that `chrono` holds: the last second of the year 262142,
/// in seconds since the Unix epoch.
pub const LATEST_TIME: i64 = 8_210_266_876_799;

/// `t` is a time that the clock can show: not before the Unix epoch and not
/// after the latest time that `chrono` holds.
pub open spec fn clock_reading(t: i64) -> bool {
    0 <= t <= LATEST_TIME
}

/// Calls `chrono::Utc::now` and takes its `timestamp`: the seconds since the
/// Unix epoch on this machine's clock. `now` takes the time that has passed
/// since the epoch and makes a `DateTime` of it, and gives up where the
/// clock stands before the epoch or beyond what a `DateTime` holds; so what
/// it returns lies between the two. Which time it is, nothing says.
#[verifier::external_body]
pub(crate) fn unix_now() -> (r: i64)
    ensures
        clock_reading(r),
{
    chrono::Utc::now().timestamp()
}

} // verus!
