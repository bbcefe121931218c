//! The clock that a check reads its time from.
use crate::config::MAX_SECONDS;
use vstd::prelude::*;

verus! {

/// Reads the system clock: `chrono::Utc::now`, then `DateTime::timestamp`
/// for the seconds since 1970 and `DateTime::timestamp_subsec_nanos` for the
/// nanoseconds into that second.
///
/// Nothing is claimed of what comes back: it is whatever the clock shows,
/// and two readings may differ in either direction. chrono itself gives up
/// on a machine whose clock stands before 1970.
#[verifier::external_body]
pub(crate) fn read_clock() -> (reading: (i64, u32)) {
    let now = chrono::Utc::now();
    (now.timestamp(), now.timestamp_subsec_nanos())
}

/// The second that a reading of the clock stands for: the reading itself,
/// and second 0 for a reading before 1970.
pub open spec fn second_of(reading: i64) -> u64 {
    if reading < 0 {
        0
    } else {
        reading as u64
    }
}

/// The second that a reading of the clock stands for.
pub fn second_at(reading: i64) -> (second: u64)
    ensures
        second == second_of(reading),
        second <= MAX_SECONDS,
{
    if reading < 0 {
        0
    } else {
        reading as u64
    }
}

} // verus!
