use temporal_iso::{
    ArithmeticOverflow, DateDuration, ErrorKind, IsoCalendar, IsoDate, IsoDateSlots, IsoDateTime,
    IsoTime, NormalizedTimeDuration, RoundingIncrement, TemporalError, TemporalRoundingMode,
    TemporalUnit,
};

fn time(h: u8, m: u8, s: u8, ms: u16, us: u16, ns: u16) -> IsoTime {
    IsoTime::new_unchecked(h, m, s, ms, us, ns)
}

#[test]
fn balance_carries_hours_into_days() {
    assert_eq!(IsoTime::balance(25, 0, 0, 0, 0, 0), (1, time(1, 0, 0, 0, 0, 0)));
}

#[test]
fn balance_of_valid_time_is_identity() {
    for t in [time(0, 0, 0, 0, 0, 0), time(23, 59, 59, 999, 999, 999), time(12, 34, 56, 700, 1, 2)] {
        let r = IsoTime::balance(
            t.hour.into(),
            t.minute.into(),
            t.second.into(),
            t.millisecond.into(),
            t.microsecond.into(),
            t.nanosecond.into(),
        );
        assert_eq!(r, (0, t));
    }
}

#[test]
fn balance_borrows_for_negative_fields() {
    assert_eq!(IsoTime::balance(0, 0, 0, 0, 0, -1), (-1, time(23, 59, 59, 999, 999, 999)));
    assert_eq!(IsoTime::balance(0, 90, -30, 1500, 0, 0), (0, time(1, 29, 31, 500, 0, 0)));
    assert_eq!(IsoTime::balance(-49, 0, 0, 0, 0, 0), (-3, time(23, 0, 0, 0, 0, 0)));
}

#[test]
fn new_constrain_clamps_each_field() {
    assert_eq!(
        IsoTime::new(24, -1, 60, 1000, -5, 999, ArithmeticOverflow::Constrain),
        Ok(time(23, 0, 59, 999, 0, 999))
    );
}

#[test]
fn new_reject_fails_out_of_range() {
    assert_eq!(
        IsoTime::new(24, 0, 0, 0, 0, 0, ArithmeticOverflow::Reject),
        Err(TemporalError::InvalidTime)
    );
    assert_eq!(
        IsoTime::new(23, 59, 59, 999, 999, 999, ArithmeticOverflow::Reject),
        Ok(time(23, 59, 59, 999, 999, 999))
    );
    assert_eq!(TemporalError::InvalidTime.kind(), ErrorKind::Range);
}

#[test]
fn is_valid_and_noon() {
    assert!(IsoTime::noon().is_valid());
    assert_eq!(IsoTime::noon(), time(12, 0, 0, 0, 0, 0));
    assert!(!time(24, 0, 0, 0, 0, 0).is_valid());
    assert!(!time(0, 0, 0, 0, 1000, 0).is_valid());
}

#[test]
fn diff_is_per_field() {
    let d = time(10, 30, 0, 5, 6, 7).diff(&time(8, 45, 30, 0, 0, 10));
    assert_eq!(
        (d.hours, d.minutes, d.seconds, d.milliseconds, d.microseconds, d.nanoseconds),
        (-2, 15, 30, -5, -6, 3)
    );
}

#[test]
fn to_epoch_ms_counts_milliseconds() {
    assert_eq!(time(1, 2, 3, 4, 5, 6).to_epoch_ms(), 3_723_004);
}

#[test]
fn add_normalized_duration_carries_days() {
    let two_hours = NormalizedTimeDuration::from_nanoseconds(7_200_000_000_000).unwrap();
    assert_eq!(time(23, 0, 0, 0, 0, 0).add(two_hours), (1, time(1, 0, 0, 0, 0, 0)));
    let minus_one = NormalizedTimeDuration::from_nanoseconds(-1).unwrap();
    assert_eq!(time(0, 0, 0, 0, 0, 0).add(minus_one), (-1, time(23, 59, 59, 999, 999, 999)));
    assert_eq!(
        NormalizedTimeDuration::from_nanoseconds(i128::MAX).map(|d| d.nanoseconds()),
        Err(TemporalError::DurationOutOfRange)
    );
}

fn inc(n: u32) -> RoundingIncrement {
    RoundingIncrement::try_new(n).unwrap()
}

#[test]
fn round_to_quarter_hour_half_even() {
    let t = time(12, 34, 56, 700, 0, 0);
    let r = t.round(inc(15), TemporalUnit::Minute, TemporalRoundingMode::HalfEven, None);
    assert_eq!(r, Ok((0, time(12, 30, 0, 0, 0, 0))));
}

#[test]
fn round_modes_on_seconds() {
    let t = time(10, 0, 7, 500, 0, 0);
    let r = |mode| t.round(inc(1), TemporalUnit::Second, mode, None).unwrap().1;
    assert_eq!(r(TemporalRoundingMode::Ceil), time(10, 0, 8, 0, 0, 0));
    assert_eq!(r(TemporalRoundingMode::Floor), time(10, 0, 7, 0, 0, 0));
    assert_eq!(r(TemporalRoundingMode::HalfExpand), time(10, 0, 8, 0, 0, 0));
    assert_eq!(r(TemporalRoundingMode::HalfTrunc), time(10, 0, 7, 0, 0, 0));
    assert_eq!(r(TemporalRoundingMode::HalfEven), time(10, 0, 8, 0, 0, 0));
    let t = time(10, 0, 6, 500, 0, 0);
    let r = t.round(inc(1), TemporalUnit::Second, TemporalRoundingMode::HalfEven, None);
    assert_eq!(r, Ok((0, time(10, 0, 6, 0, 0, 0))));
}

#[test]
fn round_carries_into_next_day() {
    let t = time(23, 45, 0, 0, 0, 0);
    let r = t.round(inc(1), TemporalUnit::Hour, TemporalRoundingMode::HalfExpand, None);
    assert_eq!(r, Ok((1, time(0, 0, 0, 0, 0, 0))));
    let r = time(12, 0, 0, 0, 0, 0).round(inc(1), TemporalUnit::Day, TemporalRoundingMode::HalfExpand, None);
    assert_eq!(r, Ok((1, time(0, 0, 0, 0, 0, 0))));
    let r = time(11, 59, 0, 0, 0, 0).round(inc(1), TemporalUnit::Day, TemporalRoundingMode::HalfExpand, None);
    assert_eq!(r, Ok((0, time(0, 0, 0, 0, 0, 0))));
}

#[test]
fn round_fine_units() {
    let t = time(1, 2, 3, 456, 789, 501);
    let r = t.round(inc(1), TemporalUnit::Microsecond, TemporalRoundingMode::HalfExpand, None);
    assert_eq!(r, Ok((0, time(1, 2, 3, 456, 790, 0))));
    let r = t.round(inc(10), TemporalUnit::Millisecond, TemporalRoundingMode::Trunc, None);
    assert_eq!(r, Ok((0, time(1, 2, 3, 450, 0, 0))));
    let r = t.round(inc(100), TemporalUnit::Nanosecond, TemporalRoundingMode::Expand, None);
    assert_eq!(r, Ok((0, time(1, 2, 3, 456, 789, 600))));
}

#[test]
fn round_errors() {
    let t = time(1, 0, 0, 0, 0, 0);
    assert_eq!(
        t.round(inc(1), TemporalUnit::Year, TemporalRoundingMode::Ceil, None),
        Err(TemporalError::UnsupportedUnit)
    );
    assert_eq!(
        t.round(inc(1), TemporalUnit::Day, TemporalRoundingMode::Ceil, Some(0)),
        Err(TemporalError::InvalidIncrement)
    );
    assert_eq!(
        t.round(inc(1_000_000_000), TemporalUnit::Hour, TemporalRoundingMode::Ceil, None),
        Err(TemporalError::InvalidIncrement)
    );
    assert!(RoundingIncrement::try_new(0).is_err());
    assert!(RoundingIncrement::try_new(1_000_000_001).is_err());
}

#[test]
fn from_epoch_nanos_decomposes() {
    let dt = IsoDateTime::from_epoch_nanos(0, 0).unwrap();
    assert_eq!(dt.date, IsoDate::new_unchecked(1970, 1, 1));
    assert_eq!(dt.time, time(0, 0, 0, 0, 0, 0));
    let dt = IsoDateTime::from_epoch_nanos(-1, 0).unwrap();
    assert_eq!(dt.date, IsoDate::new_unchecked(1969, 12, 31));
    assert_eq!(dt.time, time(23, 59, 59, 999, 999, 999));
    let dt = IsoDateTime::from_epoch_nanos(86_400_000_000_000 + 1_234_567_891, -3_600_000_000_000).unwrap();
    assert_eq!(dt.date, IsoDate::new_unchecked(1970, 1, 1));
    assert_eq!(dt.time, time(23, 0, 1, 234, 567, 891));
    assert_eq!(
        IsoDateTime::from_epoch_nanos(i128::MAX, 0),
        Err(TemporalError::DateTimeOutOfRange)
    );
}

#[test]
fn date_time_limits() {
    let d = IsoDate::new_unchecked(275760, 9, 13);
    assert!(IsoDateTime::new(d, IsoTime::noon()).is_ok());
    assert!(IsoDateTime::new(d, time(23, 59, 59, 999, 999, 999)).unwrap().is_within_limits());
    let next = IsoDate::new_unchecked(275760, 9, 14);
    assert_eq!(IsoDateTime::new(next, time(0, 0, 0, 0, 0, 0)), Err(TemporalError::DateTimeOutOfRange));
    assert!(!IsoDateTime::new_unchecked(next, IsoTime::noon()).is_within_limits());
}

#[test]
fn date_time_adds_duration_through_calendar() {
    let dt = IsoDateTime::new(IsoDate::new_unchecked(2021, 1, 31), time(23, 0, 0, 0, 0, 0)).unwrap();
    let two_hours = NormalizedTimeDuration::from_nanoseconds(7_200_000_000_000).unwrap();
    let r = dt
        .add_date_duration(&IsoCalendar, &DateDuration::new(0, 1, 0, 0), two_hours, None)
        .unwrap();
    assert_eq!(r.iso_date(), IsoDate::new_unchecked(2021, 3, 1));
    assert_eq!(r.time, time(1, 0, 0, 0, 0, 0));
    let r = dt.add_date_duration(
        &IsoCalendar,
        &DateDuration::new(0, 1, 0, 0),
        two_hours,
        Some(ArithmeticOverflow::Reject),
    );
    assert_eq!(r, Err(TemporalError::InvalidDate));
    let r = dt.add_date_duration(&IsoCalendar, &DateDuration::new(0, 0, 0, i64::MAX), two_hours, None);
    assert_eq!(r, Err(TemporalError::DurationOutOfRange));
}

#[test]
fn add_largest_normalized_duration() {
    let max = NormalizedTimeDuration::from_nanoseconds(9_007_199_254_740_991_999_999_999).unwrap();
    assert_eq!(
        time(0, 0, 0, 0, 0, 0).add(max),
        (104_249_991_374, time(7, 36, 31, 999, 999, 999))
    );
    let min = NormalizedTimeDuration::from_nanoseconds(-9_007_199_254_740_991_999_999_999).unwrap();
    let (days, _) = time(0, 0, 0, 0, 0, 0).add(min);
    assert_eq!(days, -104_249_991_375);
    assert!(NormalizedTimeDuration::from_nanoseconds(9_007_199_254_740_992_000_000_000).is_err());
}

#[test]
fn from_epoch_nanos_at_latest_instant() {
    let dt = IsoDateTime::from_epoch_nanos(8_640_000_000_000_000_000_000, 0).unwrap();
    assert_eq!(dt.date, IsoDate::new_unchecked(275760, 9, 13));
    assert_eq!(dt.time, time(0, 0, 0, 0, 0, 0));
    assert!(dt.is_within_limits());
    let dt = IsoDateTime::from_epoch_nanos(-8_640_000_000_000_000_000_000, 0).unwrap();
    assert_eq!(dt.date, IsoDate::new_unchecked(-271821, 4, 20));
}

#[test]
fn date_time_addition_is_held_to_the_limits() {
    let dt = IsoDateTime::new(IsoDate::new_unchecked(2021, 1, 1), IsoTime::noon()).unwrap();
    let zero = NormalizedTimeDuration::from_nanoseconds(0).unwrap();
    let r = dt.add_date_duration(&IsoCalendar, &DateDuration::new(0, 0, 0, 200_000_000), zero, None);
    assert_eq!(r, Err(TemporalError::DateTimeOutOfRange));
    let r = dt.add_date_duration(&IsoCalendar, &DateDuration::new(0, 0, 0, 1), zero, None).unwrap();
    assert_eq!(r.date, IsoDate::new_unchecked(2021, 1, 2));
}
