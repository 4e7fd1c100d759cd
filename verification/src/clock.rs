//! The time of day.

use vstd::prelude::*;

verus! {

/// Reads `std::time::SystemTime::now` and gives it as whole seconds since the Unix epoch, or
/// `None` where the clock stands before the epoch. Nothing is claimed of the reading.
#[verifier::external_body]
fn read_clock() -> (r: Option<u64>) {
    std::time::SystemTime::now().duration_since(std::time::UNIX_EPOCH).ok().map(|d| d.as_secs())
}

/// What a reading of the clock counts as: the epoch where the clock stands before it.
pub open spec fn seconds_of(reading: Option<u64>) -> u64 {
    match reading {
        Some(secs) => secs,
        None => 0,
    }
}

/// What a reading of the clock counts as.
pub fn seconds_from(reading: Option<u64>) -> (r: u64)
    ensures
        r == seconds_of(reading),
{
    match reading {
        Some(secs) => secs,
        None => 0,
    }
}

/// The seconds since the Unix epoch, 0 where the clock stands before it.
pub fn unix_seconds() -> (r: u64)
    ensures
        exists|reading: Option<u64>| r == #[trigger] seconds_of(reading),
{
    seconds_from(read_clock())
}

} // verus!
