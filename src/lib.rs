//! ISO calendar date and time records with verified balancing, arithmetic,
//! differencing and rounding.
pub mod epoch;
pub mod error;
pub mod options;
pub mod rounding;
pub mod duration;
pub mod iso;
pub mod calendar;
pub mod laws;

pub use calendar::{CalendarProtocol, IsoCalendar};
pub use duration::{DateDuration, NormalizedTimeDuration, TimeDuration};
pub use error::{ErrorKind, TemporalError, TemporalResult};
pub use iso::{epoch_days_to_date, IsoDate, IsoDateSlots, IsoDateTime, IsoTime};
pub use options::{ArithmeticOverflow, RoundingIncrement, TemporalRoundingMode, TemporalUnit};
