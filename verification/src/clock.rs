//! Points in time as signed nanoseconds since the Unix epoch (UTC).
//!
//! A time is valid within the calendar range of years -9999 to 9999;
//! arithmetic that would leave that range is excluded by preconditions.

use vstd::prelude::*;

verus! {

/// Nanoseconds in one second.
pub const NANOS_PER_SECOND: i128 = 1_000_000_000;

/// Seconds in one day.
pub const SECONDS_PER_DAY: i64 = 86_400;

/// The earliest valid time: -9999-01-01T00:00:00Z.
pub open spec fn min_unix_nanos() -> int {
    -377_705_116_800int * 1_000_000_000
}

/// The latest valid time: 9999-12-31T23:59:59.999999999Z.
pub open spec fn max_unix_nanos() -> int {
    253_402_300_799int * 1_000_000_000 + 999_999_999
}

/// Whether a nanosecond count lies in the valid range.
pub open spec fn time_in_range(n: int) -> bool {
    min_unix_nanos() <= n <= max_unix_nanos()
}

/// A point in time.
#[derive(Debug, Clone, Copy, PartialEq, Eq, Structural)]
pub struct Timestamp {
    /// Nanoseconds since 1970-01-01T00:00:00Z.
    pub unix_nanos: i128,
}

/// The time `seconds` after `t`.
pub open spec fn after_seconds(t: Timestamp, seconds: int) -> int {
    t.unix_nanos + seconds * 1_000_000_000
}

impl Timestamp {
    /// 1970-01-01T00:00:00Z.
    pub fn unix_epoch() -> (r: Timestamp)
        ensures
            r.unix_nanos == 0,
    {
        Timestamp { unix_nanos: 0 }
    }

    /// The time `seconds` after the Unix epoch.
    pub fn from_unix_seconds(seconds: i64) -> (r: Timestamp)
        requires
            time_in_range(seconds * 1_000_000_000),
        ensures
            r.unix_nanos == seconds * 1_000_000_000,
    {
        Timestamp { unix_nanos: seconds as i128 * NANOS_PER_SECOND }
    }

    /// The time `seconds` after this one.
    pub fn plus_seconds(self, seconds: i64) -> (r: Timestamp)
        requires
            time_in_range(after_seconds(self, seconds as int)),
        ensures
            r.unix_nanos == after_seconds(self, seconds as int),
    {
        Timestamp { unix_nanos: self.unix_nanos + seconds as i128 * NANOS_PER_SECOND }
    }

    /// The time `seconds` after this one, for an unsigned count.
    pub fn plus_unsigned_seconds(self, seconds: u64) -> (r: Timestamp)
        requires
            time_in_range(after_seconds(self, seconds as int)),
        ensures
            r.unix_nanos == after_seconds(self, seconds as int),
    {
        Timestamp { unix_nanos: self.unix_nanos + seconds as i128 * NANOS_PER_SECOND }
    }

    /// Whether this time is strictly earlier than `other`.
    pub fn is_before(self, other: Timestamp) -> (r: bool)
        ensures
            r == (self.unix_nanos < other.unix_nanos),
    {
        self.unix_nanos < other.unix_nanos
    }
}

} // verus!
