//! The calendar capability that date arithmetic is delegated to.
use vstd::prelude::*;
use crate::duration::DateDuration;
use crate::error::TemporalResult;
use crate::iso::{add_date_duration_spec, IsoDate};
use crate::options::ArithmeticOverflow;

verus! {

/// A calendar that can add a date duration to an ISO date.
pub trait CalendarProtocol {
    /// What `add_date` returns.
    spec fn add_date_spec(
        &self,
        date: IsoDate,
        duration: DateDuration,
        overflow: ArithmeticOverflow,
    ) -> TemporalResult<IsoDate>;

    /// Adds `duration` to `date`, regulating fields under `overflow`.
    fn add_date(&self, date: IsoDate, duration: &DateDuration, overflow: ArithmeticOverflow) -> (r:
        TemporalResult<IsoDate>)
        ensures
            r == self.add_date_spec(date, *duration, overflow),
    ;
}

/// The ISO 8601 calendar, whose arithmetic is that of `IsoDate`.
#[derive(Debug, Clone, Copy, PartialEq, Eq, Structural)]
pub struct IsoCalendar;

impl CalendarProtocol for IsoCalendar {
    open spec fn add_date_spec(
        &self,
        date: IsoDate,
        duration: DateDuration,
        overflow: ArithmeticOverflow,
    ) -> TemporalResult<IsoDate> {
        add_date_duration_spec(date, duration, overflow)
    }

    fn add_date(&self, date: IsoDate, duration: &DateDuration, overflow: ArithmeticOverflow) -> (r:
        TemporalResult<IsoDate>) {
        date.add_date_duration(duration, overflow)
    }
}

} // verus!
