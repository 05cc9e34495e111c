//! The wall clock that record ids are taken from.

use super::models::Timestamp;
use vstd::prelude::*;

verus! {

/// One reading of the wall clock.
#[derive(Debug, Clone, Copy, PartialEq, Eq, Structural)]
pub struct ClockReading {
    /// The moment that was read.
    pub at: Timestamp,
    /// The same moment in nanoseconds since the epoch, where the clock library
    /// can say it in 64 bits.
    pub epoch_nanos: Option<i64>,
}

/// The id of a record made at this reading: its nanoseconds since the epoch,
/// their 64 bits taken as an unsigned number; 0 where the reading has none.
pub open spec fn id_at(now: ClockReading) -> u64 {
    match now.epoch_nanos {
        Some(nanos) => nanos as u64,
        None => 0,
    }
}

impl ClockReading {
    /// Reads the clock.
    pub fn now() -> (now: Self)
        ensures
            is_clock_reading(now),
    {
        read_clock()
    }

    /// The id of a record made at this reading.
    pub fn record_id(&self) -> (id: u64)
        ensures
            id == id_at(*self),
    {
        match self.epoch_nanos {
            Some(nanos) => nanos as u64,
            None => 0,
        }
    }
}

/// A moment in nanoseconds since the epoch, where they fit in 64 bits with
/// a sign.
pub open spec fn nanos_of(at: Timestamp) -> Option<i64> {
    let nanos = at.seconds * 1_000_000_000 + at.subsec_nanos;
    if i64::MIN <= nanos <= i64::MAX {
        Some(nanos as i64)
    } else {
        None
    }
}

/// The reading that the clock gives at a moment.
pub open spec fn reading_at(at: Timestamp) -> ClockReading {
    ClockReading { at, epoch_nanos: nanos_of(at) }
}

/// The reading is one that the clock gives: its nanoseconds since the last
/// second are less than a second, and its nanoseconds since the epoch are
/// those of its moment.
pub open spec fn is_clock_reading(now: ClockReading) -> bool {
    now.at.subsec_nanos < 1_000_000_000 && now == reading_at(now.at)
}

/// The system clock, read by `SystemTime::now` of std, turned into a moment
/// by `chrono`'s `DateTime::<Utc>::from`, and taken apart by
/// `DateTime::timestamp`, `timestamp_subsec_nanos` and
/// `timestamp_nanos_opt`. Which moment comes back is the clock's to say. The
/// contract claims what holds of every moment that `chrono` makes of a system
/// time: the nanoseconds since the last second are less than a second, and
/// the nanoseconds since the epoch are the seconds and nanoseconds taken
/// together, or `None` where they do not fit in 64 bits. `chrono` unwraps its
/// own range of years in the conversion, some 262 000 years either side of
/// the epoch, where no system clock stands.
#[verifier::external_body]
pub(crate) fn read_clock() -> (now: ClockReading)
    ensures
        is_clock_reading(now),
{
    let now = chrono::DateTime::<chrono::Utc>::from(std::time::SystemTime::now());
    ClockReading {
        at: Timestamp { seconds: now.timestamp(), subsec_nanos: now.timestamp_subsec_nanos() },
        epoch_nanos: now.timestamp_nanos_opt(),
    }
}

} // verus!
