//! Laws that relate the operations of the ISO records.
use vstd::prelude::*;
use crate::epoch::{days_in_month, epoch_days};
use crate::error::TemporalError;
use crate::iso::{
    balanced, diff_iso_date_spec, lemma_nanos_of_valid_time, lemma_valid_date_year_bound,
    noon_time, regulate_date, within_limits, IsoDate, IsoTime,
};
use crate::options::{ArithmeticOverflow, TemporalUnit};

verus! {

/// Constraining month 13 and day 40 of a year gives the last day of its
/// December, wherever that day lies within the limits.
pub proof fn lemma_constrain_clamps_to_year_end(y: i32)
    requires
        within_limits(IsoDate { year: y, month: 12, day: 31 }, noon_time()),
    ensures
        regulate_date(y as int, 13, 40, ArithmeticOverflow::Constrain) == Ok::<IsoDate, TemporalError>(
            IsoDate { year: y, month: 12, day: days_in_month(y as int, 12) as u8 },
        ),
{
}

/// Balancing the fields of a valid time carries no day and changes nothing.
pub proof fn lemma_balance_valid_time(t: IsoTime)
    requires
        t.is_valid_spec(),
    ensures
        balanced(t.nanos_since_midnight()) == (0int, t),
{
    lemma_nanos_of_valid_time(t);
}

/// Each component negated.
pub open spec fn negated(d: (int, int, int, int)) -> (int, int, int, int) {
    (-d.0, -d.1, -d.2, -d.3)
}

/// Swapping the two dates negates the difference when it is counted in days
/// (any largest unit other than year, month or week), in weeks when the days
/// between them are whole weeks, and in years or months when the two dates
/// share their day of the month.
pub proof fn lemma_diff_sign_symmetry(a: IsoDate, b: IsoDate, unit: TemporalUnit)
    requires
        a.is_valid_spec(),
        b.is_valid_spec(),
        (unit != TemporalUnit::Year && unit != TemporalUnit::Month && unit != TemporalUnit::Week)
            || (unit == TemporalUnit::Week && (b.epoch_day_number() - a.epoch_day_number()) % 7
            == 0) || ((unit == TemporalUnit::Year || unit == TemporalUnit::Month) && a.day
            == b.day),
    ensures
        diff_iso_date_spec(b, a, unit) == negated(diff_iso_date_spec(a, b, unit)),
{
    lemma_valid_date_year_bound(a);
    lemma_valid_date_year_bound(b);
}

/// A date 100,000,001 days before the epoch, or 100,000,000 after it, lies
/// within the limits at noon; one 100,000,001 days after the epoch, or
/// 100,000,002 days from it either way, does not.
pub proof fn lemma_range_boundary(d: IsoDate)
    requires
        d.has_valid_fields(),
    ensures
        d.epoch_day_number() == -100_000_001 ==> within_limits(d, noon_time()),
        d.epoch_day_number() == 100_000_000 ==> within_limits(d, noon_time()),
        d.epoch_day_number() == 100_000_001 ==> !within_limits(d, noon_time()),
        d.epoch_day_number() == 100_000_002 ==> !within_limits(d, noon_time()),
        d.epoch_day_number() == -100_000_002 ==> !within_limits(d, noon_time()),
{
}

} // verus!
