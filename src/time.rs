//! Instants and local clock readings, as plain integers.
use vstd::prelude::*;

verus! {

/// An instant in UTC: whole seconds since 1970-01-01T00:00:00Z and the
/// nanoseconds past that second. A leap second is written, as chrono writes
/// it, with `nanos` of one billion or more.
#[derive(Clone, Copy, Debug, PartialEq, Eq, Structural)]
pub struct UtcTime {
    pub secs: i64,
    pub nanos: u32,
}

impl UtcTime {
    /// Strictly earlier than `other`.
    pub open spec fn precedes(self, other: UtcTime) -> bool {
        self.secs < other.secs || (self.secs == other.secs && self.nanos < other.nanos)
    }

    /// Earlier than or the same as `other`.
    pub open spec fn not_after(self, other: UtcTime) -> bool {
        self.precedes(other) || self == other
    }

    pub fn same_instant(&self, other: &UtcTime) -> (r: bool)
        ensures
            r == (*self == *other),
    {
        self.secs == other.secs && self.nanos == other.nanos
    }
}

/// A reading of a clock that runs at a fixed offset from UTC: the wall-clock
/// time, counted in seconds from 1970-01-01T00:00:00 on that clock, its
/// nanoseconds, and the offset in seconds (local minus UTC; `-25200` for
/// `-07:00`).
#[derive(Clone, Copy, Debug, PartialEq, Eq, Structural)]
pub struct LocalTime {
    pub wall_secs: i64,
    pub nanos: u32,
    pub offset_secs: i32,
}

impl LocalTime {
    /// The UTC second that the wall-clock second stands for.
    pub open spec fn utc_secs(self) -> int {
        self.wall_secs - self.offset_secs
    }

    /// The instant that this reading stands for, where it is representable.
    pub open spec fn spec_to_utc(self) -> Option<UtcTime> {
        if i64::MIN <= self.utc_secs() <= i64::MAX {
            Some(UtcTime { secs: self.utc_secs() as i64, nanos: self.nanos })
        } else {
            None
        }
    }

    pub fn to_utc(&self) -> (r: Option<UtcTime>)
        ensures
            r == self.spec_to_utc(),
    {
        let s = self.wall_secs as i128 - self.offset_secs as i128;
        if i64::MIN as i128 <= s && s <= i64::MAX as i128 {
            Some(UtcTime { secs: s as i64, nanos: self.nanos })
        } else {
            None
        }
    }
}

} // verus!
