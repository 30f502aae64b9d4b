//! Wall-clock timestamps.

use std::time::{SystemTime, UNIX_EPOCH};

use vstd::prelude::*;

verus! {

/// The timestamp that a clock reading stands for: its low 64 bits, or zero when the
/// clock stands before the epoch.
pub open spec fn stamp(reading: Option<u128>) -> u64 {
    match reading {
        Some(us) => (us % 0x1_0000_0000_0000_0000) as u64,
        None => 0,
    }
}

/// Calls `std::time::SystemTime::now` and gives the whole microseconds since the Unix
/// epoch, or `None` when the clock is set before it. Nothing is claimed of the reading.
#[verifier::external_body]
fn micros_since_epoch() -> (reading: Option<u128>) {
    SystemTime::now().duration_since(UNIX_EPOCH).ok().map(|d| d.as_micros())
}

/// Turns a clock reading into a header timestamp.
pub fn timestamp_of(reading: Option<u128>) -> (t: u64)
    ensures
        t == stamp(reading),
{
    match reading {
        Some(us) => (us % 0x1_0000_0000_0000_0000) as u64,
        None => 0,
    }
}

/// The current time in microseconds since the Unix epoch: `timestamp_of` whatever the
/// clock reads.
pub(crate) fn now_us() -> (t: u64) {
    timestamp_of(micros_since_epoch())
}

/// A timestamp agrees with the clock's reading up to its low 64 bits; without a reading it is
/// zero.
pub proof fn law_stamp(us: u128)
    ensures
        stamp(None) == 0,
        (us - stamp(Some(us))) % 0x1_0000_0000_0000_0000 == 0,
        us <= u64::MAX ==> stamp(Some(us)) == us,
{
}

} // verus!
