//! The error type of the library.
use vstd::prelude::*;

verus! {

/// The category of an error.
#[derive(Debug, Clone, Copy, PartialEq, Eq, Structural)]
pub enum ErrorKind {
    /// A value lies outside the range an operation accepts.
    Range,
}

/// An error raised by this library; every variant is a range error.
#[derive(Debug, Clone, Copy, PartialEq, Eq, Structural)]
pub enum TemporalError {
    /// Calendar fields that do not name a date, under the rejecting policy.
    InvalidDate,
    /// A date outside the representable window of instants.
    DateOutOfRange,
    /// Time fields outside their ranges, under the rejecting policy.
    InvalidTime,
    /// A date and time outside the representable window of instants.
    DateTimeOutOfRange,
    /// A unit that the operation does not support.
    UnsupportedUnit,
    /// A rounding step that is zero or does not fit in 64 bits.
    InvalidIncrement,
    /// A duration component that does not fit in 64 bits.
    DurationOutOfRange,
}

impl TemporalError {
    /// The category of this error.
    pub fn kind(&self) -> (r: ErrorKind)
        ensures
            r == ErrorKind::Range,
    {
        ErrorKind::Range
    }

    /// A human-readable description of this error.
    pub fn message(&self) -> (r: &'static str)
        ensures
            r@ == error_message(*self),
    {
        match self {
            TemporalError::InvalidDate => "not a valid ISO date.",
            TemporalError::DateOutOfRange => "Date is not within ISO date time limits.",
            TemporalError::InvalidTime => "IsoTime is not valid",
            TemporalError::DateTimeOutOfRange => "IsoDateTime not within a valid range.",
            TemporalError::UnsupportedUnit => "Invalid temporal unit provided to Time.round.",
            TemporalError::InvalidIncrement => "rounding increment is zero or too large.",
            TemporalError::DurationOutOfRange => "duration component out of range.",
        }
    }
}

/// The description of each error.
pub open spec fn error_message(e: TemporalError) -> Seq<char> {
    match e {
        TemporalError::InvalidDate => "not a valid ISO date."@,
        TemporalError::DateOutOfRange => "Date is not within ISO date time limits."@,
        TemporalError::InvalidTime => "IsoTime is not valid"@,
        TemporalError::DateTimeOutOfRange => "IsoDateTime not within a valid range."@,
        TemporalError::UnsupportedUnit => "Invalid temporal unit provided to Time.round."@,
        TemporalError::InvalidIncrement => "rounding increment is zero or too large."@,
        TemporalError::DurationOutOfRange => "duration component out of range."@,
    }
}

/// The result of a fallible operation of this library.
pub type TemporalResult<T> = Result<T, TemporalError>;

} // verus!
