//! Options that steer construction, differencing and rounding.
use vstd::prelude::*;

verus! {

/// Nanoseconds in a standard 24-hour day.
pub const NS_PER_DAY: u64 = 86_400_000_000_000;

/// What a constructor does with a field outside its range.
#[derive(Debug, Clone, Copy, PartialEq, Eq, Structural)]
pub enum ArithmeticOverflow {
    /// Clamp the field into its range.
    Constrain,
    /// Fail with a range error.
    Reject,
}

/// A unit of calendar or clock time.
#[derive(Debug, Clone, Copy, PartialEq, Eq, Structural)]
pub enum TemporalUnit {
    Auto,
    Year,
    Month,
    Week,
    Day,
    Hour,
    Minute,
    Second,
    Millisecond,
    Microsecond,
    Nanosecond,
}

/// Fixed width in nanoseconds of the clock units and of a standard day.
pub open spec fn unit_nanoseconds(unit: TemporalUnit) -> Option<int> {
    match unit {
        TemporalUnit::Day => Some(NS_PER_DAY as int),
        TemporalUnit::Hour => Some(3_600_000_000_000),
        TemporalUnit::Minute => Some(60_000_000_000),
        TemporalUnit::Second => Some(1_000_000_000),
        TemporalUnit::Millisecond => Some(1_000_000),
        TemporalUnit::Microsecond => Some(1_000),
        TemporalUnit::Nanosecond => Some(1),
        _ => None,
    }
}

impl TemporalUnit {
    /// The width of this unit in nanoseconds, where it has a fixed one.
    pub fn as_nanoseconds(&self) -> (r: Option<u64>)
        ensures
            r matches Some(n) ==> unit_nanoseconds(*self) == Some(n as int),
            r is None ==> unit_nanoseconds(*self) is None,
    {
        match self {
            TemporalUnit::Day => Some(NS_PER_DAY),
            TemporalUnit::Hour => Some(3_600_000_000_000),
            TemporalUnit::Minute => Some(60_000_000_000),
            TemporalUnit::Second => Some(1_000_000_000),
            TemporalUnit::Millisecond => Some(1_000_000),
            TemporalUnit::Microsecond => Some(1_000),
            TemporalUnit::Nanosecond => Some(1),
            _ => None,
        }
    }
}

/// How a quantity between two multiples of a step is rounded.
#[derive(Debug, Clone, Copy, PartialEq, Eq, Structural)]
pub enum TemporalRoundingMode {
    Ceil,
    Floor,
    Expand,
    Trunc,
    HalfCeil,
    HalfFloor,
    HalfExpand,
    HalfTrunc,
    HalfEven,
}

/// Largest rounding increment accepted.
pub const MAX_ROUNDING_INCREMENT: u32 = 1_000_000_000;

/// A rounding increment: a count of units between 1 and one billion.
#[derive(Debug, Clone, Copy)]
pub struct RoundingIncrement {
    value: u32,
}

impl RoundingIncrement {
    /// The count of units this increment stands for.
    pub closed spec fn count(self) -> int {
        self.value as int
    }

    #[verifier::type_invariant]
    closed spec fn in_range(self) -> bool {
        1 <= self.value <= MAX_ROUNDING_INCREMENT
    }

    /// An increment of a single unit.
    pub fn one() -> (r: Self)
        ensures
            r.count() == 1,
    {
        RoundingIncrement { value: 1 }
    }

    /// Validates an increment; fails unless it lies in 1..=1_000_000_000.
    pub fn try_new(value: u32) -> (r: Result<Self, crate::error::TemporalError>)
        ensures
            r is Ok <==> 1 <= value <= MAX_ROUNDING_INCREMENT,
            r matches Ok(i) ==> i.count() == value,
            r matches Err(e) ==> e == crate::error::TemporalError::InvalidIncrement,
    {
        if 1 <= value && value <= MAX_ROUNDING_INCREMENT {
            Ok(RoundingIncrement { value })
        } else {
            Err(crate::error::TemporalError::InvalidIncrement)
        }
    }

    /// The count of units, widened for multiplication with a unit width.
    pub fn as_extended_increment(&self) -> (r: u64)
        ensures
            r == self.count(),
            1 <= r <= MAX_ROUNDING_INCREMENT,
    {
        proof {
            use_type_invariant(self);
        }
        self.value as u64
    }
}

} // verus!
