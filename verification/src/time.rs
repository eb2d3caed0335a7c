//! Monotonic spans and wall-clock instants as plain counts of nanoseconds.

use vstd::prelude::*;

verus! {

/// The longest span: `u64::MAX` seconds and 999 999 999 nanoseconds.
pub const DURATION_NANOS_MAX: u128 = 18_446_744_073_709_551_615_999_999_999;

/// Nanoseconds in one millisecond.
pub const NANOS_PER_MILLI: u128 = 1_000_000;

/// A span of time.
#[derive(Debug, Clone, Copy, PartialEq, Eq, PartialOrd, Ord, Structural)]
pub struct Duration {
    pub nanos: u128,
}

impl Duration {
    /// A span that the clock can represent.
    pub open spec fn wf(self) -> bool {
        self.nanos <= DURATION_NANOS_MAX
    }

    pub fn zero() -> (r: Duration)
        ensures
            r.nanos == 0,
            r.wf(),
    {
        Duration { nanos: 0 }
    }

    pub fn max_value() -> (r: Duration)
        ensures
            r.nanos == DURATION_NANOS_MAX,
            r.wf(),
    {
        Duration { nanos: DURATION_NANOS_MAX }
    }

    pub fn from_nanos(nanos: u64) -> (r: Duration)
        ensures
            r.nanos == nanos,
            r.wf(),
    {
        Duration { nanos: nanos as u128 }
    }

    pub fn from_millis(millis: u64) -> (r: Duration)
        ensures
            r.nanos == millis * NANOS_PER_MILLI,
            r.wf(),
    {
        Duration { nanos: millis as u128 * NANOS_PER_MILLI }
    }

    pub fn from_secs(secs: u64) -> (r: Duration)
        ensures
            r.nanos == secs * 1_000_000_000,
            r.wf(),
    {
        Duration { nanos: secs as u128 * 1_000_000_000 }
    }

    /// The sum, if it is representable.
    pub fn checked_add(self, other: Duration) -> (r: Option<Duration>)
        ensures
            r == (if self.nanos + other.nanos <= DURATION_NANOS_MAX {
                Some(Duration { nanos: (self.nanos + other.nanos) as u128 })
            } else {
                None
            }),
    {
        match self.nanos.checked_add(other.nanos) {
            Some(nanos) => if nanos <= DURATION_NANOS_MAX {
                Some(Duration { nanos })
            } else {
                None
            },
            None => None,
        }
    }

    /// The difference, if `other` is not the longer span.
    pub fn checked_sub(self, other: Duration) -> (r: Option<Duration>)
        ensures
            r == (if other.nanos <= self.nanos {
                Some(Duration { nanos: (self.nanos - other.nanos) as u128 })
            } else {
                None
            }),
    {
        if other.nanos <= self.nanos {
            Some(Duration { nanos: self.nanos - other.nanos })
        } else {
            None
        }
    }

    /// The difference, or zero where `other` is the longer span.
    pub fn saturating_sub(self, other: Duration) -> (r: Duration)
        ensures
            r.nanos == (if other.nanos <= self.nanos {
                self.nanos - other.nanos
            } else {
                0
            }),
    {
        if other.nanos <= self.nanos {
            Duration { nanos: self.nanos - other.nanos }
        } else {
            Duration { nanos: 0 }
        }
    }

    /// The shorter of two spans.
    pub fn shorter(self, other: Duration) -> (r: Duration)
        ensures
            r.nanos == (if self.nanos <= other.nanos {
                self.nanos
            } else {
                other.nanos
            }),
    {
        if self.nanos <= other.nanos {
            self
        } else {
            other
        }
    }

    /// Whole milliseconds, rounded down.
    pub fn as_millis(self) -> (r: u128)
        ensures
            r == self.nanos / NANOS_PER_MILLI,
    {
        self.nanos / NANOS_PER_MILLI
    }
}

/// A wall-clock instant, in nanoseconds from the Unix epoch; instants before it
/// are negative.
#[derive(Debug, Clone, Copy, PartialEq, Eq, PartialOrd, Ord, Structural)]
pub struct SystemTime {
    pub nanos: i128,
}

impl SystemTime {
    /// The instant `millis` milliseconds after the epoch.
    pub fn from_unix_millis(millis: u64) -> (r: SystemTime)
        ensures
            r.nanos == millis * NANOS_PER_MILLI,
    {
        SystemTime { nanos: (millis as u128 * NANOS_PER_MILLI) as i128 }
    }
}

/// The clock could not be expressed as milliseconds since the epoch.
#[derive(Debug, Clone, Copy, PartialEq, Eq, Structural)]
pub struct ClockUnavailable;

/// Whole milliseconds since the epoch, where the instant is not before it and
/// the count fits.
pub open spec fn unix_millis_of(time: SystemTime) -> Option<u64> {
    if 0 <= time.nanos && time.nanos as int / 1_000_000 <= u64::MAX {
        Some((time.nanos as int / 1_000_000) as u64)
    } else {
        None
    }
}

/// Milliseconds since the epoch, for output.
pub fn unix_milliseconds(time: SystemTime) -> (r: Result<u64, ClockUnavailable>)
    ensures
        match unix_millis_of(time) {
            Some(millis) => r == Ok::<u64, ClockUnavailable>(millis),
            None => r is Err,
        },
{
    if time.nanos < 0 {
        return Err(ClockUnavailable);
    }
    let millis: u128 = time.nanos as u128 / 1_000_000;
    if millis <= u64::MAX as u128 {
        Ok(millis as u64)
    } else {
        Err(ClockUnavailable)
    }
}

} // verus!
