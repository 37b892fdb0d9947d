use temporal_iso::epoch::iso_date_to_epoch_days;
use temporal_iso::{
    epoch_days_to_date, ArithmeticOverflow, DateDuration, IsoDate, IsoDateTime, IsoTime,
    TemporalError, TemporalUnit,
};

fn date(year: i32, month: i32, day: i32) -> IsoDate {
    IsoDate::new(year, month, day, ArithmeticOverflow::Reject).unwrap()
}

#[test]
fn epoch_days_of_known_dates() {
    assert_eq!(iso_date_to_epoch_days(1970, 0, 1), 0);
    assert_eq!(iso_date_to_epoch_days(2000, 0, 1), 10957);
    assert_eq!(iso_date_to_epoch_days(1969, 11, 31), -1);
    assert_eq!(date(275760, 9, 13).to_epoch_days(), 100_000_000);
    assert_eq!(date(-271821, 4, 19).to_epoch_days(), -100_000_001);
}

#[test]
fn epoch_days_carry_months_into_years() {
    assert_eq!(iso_date_to_epoch_days(2020, 12, 1), iso_date_to_epoch_days(2021, 0, 1));
    assert_eq!(iso_date_to_epoch_days(2021, -1, 1), 18597);
    assert_eq!(iso_date_to_epoch_days(2020, 11, 1), 18597);
    assert_eq!(iso_date_to_epoch_days(2021, 1, 0), iso_date_to_epoch_days(2021, 0, 31));
}

#[test]
fn round_trip_through_epoch_days() {
    for (y, m, d) in [
        (1970, 1, 1),
        (2020, 2, 29),
        (2000, 12, 31),
        (1900, 3, 1),
        (-1, 1, 1),
        (-400, 2, 29),
        (275760, 9, 13),
        (-271821, 4, 19),
    ] {
        let iso = date(y, m, d);
        assert_eq!(epoch_days_to_date(iso.to_epoch_days()), iso);
    }
}

#[test]
fn constrain_clamps_month_and_day() {
    let d = IsoDate::new(2021, 13, 40, ArithmeticOverflow::Constrain).unwrap();
    assert_eq!(d, IsoDate::new_unchecked(2021, 12, 31));
    let d = IsoDate::new(2021, 2, 30, ArithmeticOverflow::Constrain).unwrap();
    assert_eq!(d, IsoDate::new_unchecked(2021, 2, 28));
    let d = IsoDate::new(2021, -5, -5, ArithmeticOverflow::Constrain).unwrap();
    assert_eq!(d, IsoDate::new_unchecked(2021, 1, 1));
}

#[test]
fn reject_is_strict_about_leap_days() {
    assert_eq!(
        IsoDate::new(2021, 2, 29, ArithmeticOverflow::Reject),
        Err(TemporalError::InvalidDate)
    );
    assert_eq!(
        IsoDate::new(2020, 2, 29, ArithmeticOverflow::Reject),
        Ok(IsoDate::new_unchecked(2020, 2, 29))
    );
    assert_eq!(
        IsoDate::new(2021, 0, 1, ArithmeticOverflow::Reject),
        Err(TemporalError::InvalidDate)
    );
    assert_eq!(
        IsoDate::new(1900, 2, 29, ArithmeticOverflow::Reject),
        Err(TemporalError::InvalidDate)
    );
}

#[test]
fn date_range_boundary_at_noon() {
    let lowest = date(-271821, 4, 19);
    assert!(IsoDateTime::new(lowest, IsoTime::noon()).is_ok());
    assert_eq!(
        IsoDate::new(-271821, 4, 18, ArithmeticOverflow::Reject),
        Err(TemporalError::DateOutOfRange)
    );
    assert!(IsoDate::new(275760, 9, 13, ArithmeticOverflow::Reject).is_ok());
    assert_eq!(
        IsoDate::new(275760, 9, 14, ArithmeticOverflow::Reject),
        Err(TemporalError::DateOutOfRange)
    );
    let beyond = IsoDate::new_unchecked(-271821, 4, 18);
    assert_eq!(beyond.to_epoch_days(), -100_000_002);
    assert_eq!(
        IsoDateTime::new(beyond, IsoTime::noon()),
        Err(TemporalError::DateTimeOutOfRange)
    );
}

#[test]
fn balance_normalizes_out_of_range_fields() {
    assert_eq!(IsoDate::balance(2021, 13, 1), Ok(IsoDate::new_unchecked(2022, 1, 1)));
    assert_eq!(IsoDate::balance(2021, 1, 0), Ok(IsoDate::new_unchecked(2020, 12, 31)));
    assert_eq!(IsoDate::balance(2021, 3, -28), Ok(IsoDate::new_unchecked(2021, 1, 31)));
    assert_eq!(IsoDate::balance(2020, 2, 30), Ok(IsoDate::new_unchecked(2020, 3, 1)));
    assert_eq!(IsoDate::balance(i32::MAX, 12, 32), Err(TemporalError::DateOutOfRange));
}

#[test]
fn is_valid_checks_fields() {
    assert!(IsoDate::new_unchecked(2020, 2, 29).is_valid());
    assert!(!IsoDate::new_unchecked(2021, 2, 29).is_valid());
    assert!(!IsoDate::new_unchecked(2021, 13, 1).is_valid());
    assert!(!IsoDate::new_unchecked(2021, 1, 0).is_valid());
}

#[test]
fn add_month_clamps_to_month_end() {
    let jan31 = date(2021, 1, 31);
    let one_month = DateDuration::new(0, 1, 0, 0);
    assert_eq!(
        jan31.add_date_duration(&one_month, ArithmeticOverflow::Constrain),
        Ok(IsoDate::new_unchecked(2021, 2, 28))
    );
    assert_eq!(
        jan31.add_date_duration(&one_month, ArithmeticOverflow::Reject),
        Err(TemporalError::InvalidDate)
    );
}

#[test]
fn add_weeks_and_days_linearly() {
    let d = date(2021, 12, 25);
    let dur = DateDuration::new(1, 2, 1, 3);
    assert_eq!(
        d.add_date_duration(&dur, ArithmeticOverflow::Reject),
        Ok(IsoDate::new_unchecked(2023, 3, 7))
    );
    let back = DateDuration::new(0, -13, 0, -31);
    assert_eq!(
        d.add_date_duration(&back, ArithmeticOverflow::Constrain),
        Ok(IsoDate::new_unchecked(2020, 10, 25))
    );
}

#[test]
fn add_beyond_limits_fails() {
    let d = date(2021, 1, 1);
    let far = DateDuration::new(300_000, 0, 0, 0);
    assert_eq!(
        d.add_date_duration(&far, ArithmeticOverflow::Constrain),
        Err(TemporalError::DateOutOfRange)
    );
    let huge = DateDuration::new(i64::MAX, 0, 0, 0);
    assert_eq!(
        d.add_date_duration(&huge, ArithmeticOverflow::Constrain),
        Err(TemporalError::DateOutOfRange)
    );
    let days = DateDuration::new(0, 0, i64::MAX, i64::MAX);
    assert_eq!(
        d.add_date_duration(&days, ArithmeticOverflow::Constrain),
        Err(TemporalError::DateOutOfRange)
    );
}

fn parts(d: DateDuration) -> (i64, i64, i64, i64) {
    (d.years, d.months, d.weeks, d.days)
}

#[test]
fn month_end_clamp_in_difference() {
    let a = date(2021, 1, 31);
    let b = date(2021, 3, 1);
    assert_eq!(parts(a.diff_iso_date(&b, TemporalUnit::Month).unwrap()), (0, 1, 0, 1));
}

#[test]
fn month_difference_is_not_symmetric_across_month_lengths() {
    let a = date(2021, 1, 30);
    let b = date(2021, 3, 1);
    assert_eq!(parts(a.diff_iso_date(&b, TemporalUnit::Month).unwrap()), (0, 1, 0, 1));
    assert_eq!(parts(b.diff_iso_date(&a, TemporalUnit::Month).unwrap()), (0, -1, 0, -2));
}

#[test]
fn day_difference_is_antisymmetric() {
    let pairs = [
        (date(2021, 1, 31), date(2021, 3, 1)),
        (date(1999, 12, 31), date(2024, 2, 29)),
        (date(-5, 6, 7), date(3, 1, 1)),
    ];
    for (a, b) in pairs {
        for unit in [TemporalUnit::Day, TemporalUnit::Hour] {
            let ab = parts(a.diff_iso_date(&b, unit).unwrap());
            let ba = parts(b.diff_iso_date(&a, unit).unwrap());
            assert_eq!(ab, (-ba.0, -ba.1, -ba.2, -ba.3));
        }
    }
    let a = date(2020, 2, 29);
    let b = date(2024, 2, 29);
    for unit in [TemporalUnit::Year, TemporalUnit::Month] {
        let ab = parts(a.diff_iso_date(&b, unit).unwrap());
        let ba = parts(b.diff_iso_date(&a, unit).unwrap());
        assert_eq!(ab, (-ba.0, -ba.1, -ba.2, -ba.3));
    }
}

#[test]
fn year_difference_keeps_remainder_months() {
    let a = date(2019, 3, 15);
    let b = date(2021, 3, 14);
    assert_eq!(parts(a.diff_iso_date(&b, TemporalUnit::Year).unwrap()), (1, 11, 0, 27));
    assert_eq!(parts(a.diff_iso_date(&a, TemporalUnit::Year).unwrap()), (0, 0, 0, 0));
}

#[test]
fn week_difference_splits_days_euclidean() {
    let a = date(2021, 1, 1);
    let b = date(2021, 1, 11);
    assert_eq!(parts(a.diff_iso_date(&b, TemporalUnit::Week).unwrap()), (0, 0, 1, 3));
    assert_eq!(parts(b.diff_iso_date(&a, TemporalUnit::Week).unwrap()), (0, 0, -2, 4));
    assert_eq!(parts(a.diff_iso_date(&b, TemporalUnit::Day).unwrap()), (0, 0, 0, 10));
}

#[test]
fn is_valid_checks_the_epoch_day_window() {
    assert!(!IsoDate::new_unchecked(300000, 1, 1).is_valid());
    assert!(IsoDate::new_unchecked(275760, 9, 13).is_valid());
    assert!(IsoDate::new_unchecked(-271821, 4, 19).is_valid());
    assert!(!IsoDate::new_unchecked(-271821, 4, 18).is_valid());
}

#[test]
fn defaults_are_all_zero() {
    assert_eq!(IsoDate::default(), IsoDate::new_unchecked(0, 0, 0));
    assert_eq!(IsoTime::default(), IsoTime::new_unchecked(0, 0, 0, 0, 0, 0));
    let dt = IsoDateTime::default();
    assert_eq!((dt.date, dt.time), (IsoDate::default(), IsoTime::default()));
}

#[test]
fn error_messages() {
    assert_eq!(TemporalError::InvalidDate.message(), "not a valid ISO date.");
    assert_eq!(TemporalError::DateTimeOutOfRange.message(), "IsoDateTime not within a valid range.");
}
