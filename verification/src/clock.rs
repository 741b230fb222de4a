//! The system clock.

use vstd::prelude::*;

verus! {

/// The seconds since the epoch by the system clock; before the epoch the
/// number is negative.  Wraps `time::get_time` and hands out the `sec` of
/// what it returns.  Nothing is claimed of the value.
#[verifier::external_body]
pub(crate) fn epoch_seconds() -> (sec: i64) {
    time::get_time().sec
}

/// The seconds since the epoch as a count; a clock that stands before the
/// epoch counts as zero.
pub open spec fn counted(sec: i64) -> u64 {
    if sec < 0 {
        0
    } else {
        sec as u64
    }
}

/// The seconds since the epoch as a count; a clock that stands before the
/// epoch counts as zero.
pub fn count_seconds(sec: i64) -> (now: u64)
    ensures
        now == counted(sec),
{
    if sec < 0 {
        0
    } else {
        sec as u64
    }
}

/// The second that the system clock shows.
pub fn unix_now() -> (now: u64)
    ensures
        now <= i64::MAX,
{
    count_seconds(epoch_seconds())
}

} // verus!
