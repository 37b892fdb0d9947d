//! Duration records consumed and produced by the date and time operations.
use vstd::prelude::*;
use crate::error::{TemporalError, TemporalResult};

verus! {

/// Largest magnitude of a normalized time duration: 2^53 seconds less one
/// nanosecond.
pub const MAX_NORMALIZED_TIME_DURATION: i128 = 9_007_199_254_740_991_999_999_999;

/// A calendar duration in years, months, weeks and days.
#[derive(Debug, Clone, Copy, PartialEq, Eq, Structural)]
pub struct DateDuration {
    pub years: i64,
    pub months: i64,
    pub weeks: i64,
    pub days: i64,
}

impl DateDuration {
    /// Creates a date duration from its components.
    pub fn new(years: i64, months: i64, weeks: i64, days: i64) -> (r: Self)
        ensures
            r == (DateDuration { years, months, weeks, days }),
    {
        DateDuration { years, months, weeks, days }
    }

    /// The zero duration.
    pub fn zero() -> (r: Self)
        ensures
            r == (DateDuration { years: 0, months: 0, weeks: 0, days: 0 }),
    {
        DateDuration { years: 0, months: 0, weeks: 0, days: 0 }
    }
}

/// Raw per-field differences of two times of day, not carried.
#[derive(Debug, Clone, Copy, PartialEq, Eq, Structural)]
pub struct TimeDuration {
    pub hours: i64,
    pub minutes: i64,
    pub seconds: i64,
    pub milliseconds: i64,
    pub microseconds: i64,
    pub nanoseconds: i64,
}

impl TimeDuration {
    /// Creates a time duration from its components, without carrying.
    pub fn new_unchecked(
        hours: i64,
        minutes: i64,
        seconds: i64,
        milliseconds: i64,
        microseconds: i64,
        nanoseconds: i64,
    ) -> (r: Self)
        ensures
            r == (TimeDuration { hours, minutes, seconds, milliseconds, microseconds, nanoseconds }),
    {
        TimeDuration { hours, minutes, seconds, milliseconds, microseconds, nanoseconds }
    }
}

/// A time duration held as a single count of nanoseconds.
#[derive(Debug, Clone, Copy)]
pub struct NormalizedTimeDuration {
    nanoseconds: i128,
}

impl NormalizedTimeDuration {
    /// The nanoseconds this duration holds.
    pub closed spec fn total(self) -> int {
        self.nanoseconds as int
    }

    #[verifier::type_invariant]
    closed spec fn in_range(self) -> bool {
        -MAX_NORMALIZED_TIME_DURATION <= self.nanoseconds <= MAX_NORMALIZED_TIME_DURATION
    }

    /// Creates a duration of `nanoseconds`; fails when its magnitude exceeds
    /// 2^53 seconds less one nanosecond.
    pub fn from_nanoseconds(nanoseconds: i128) -> (r: TemporalResult<Self>)
        ensures
            r is Ok <==> -MAX_NORMALIZED_TIME_DURATION <= nanoseconds <= MAX_NORMALIZED_TIME_DURATION,
            r matches Ok(d) ==> d.total() == nanoseconds,
            r matches Err(e) ==> e == TemporalError::DurationOutOfRange,
    {
        if -MAX_NORMALIZED_TIME_DURATION <= nanoseconds && nanoseconds <= MAX_NORMALIZED_TIME_DURATION {
            Ok(NormalizedTimeDuration { nanoseconds })
        } else {
            Err(TemporalError::DurationOutOfRange)
        }
    }

    /// The nanoseconds this duration holds.
    pub fn nanoseconds(&self) -> (r: i128)
        ensures
            r == self.total(),
            -MAX_NORMALIZED_TIME_DURATION <= r <= MAX_NORMALIZED_TIME_DURATION,
    {
        proof {
            use_type_invariant(self);
        }
        self.nanoseconds
    }

}

} // verus!
