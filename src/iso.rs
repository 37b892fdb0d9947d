//! The ISO field records: `IsoDate`, `IsoTime` and `IsoDateTime`.
//!
//! An `IsoDate` holds a year, month and day of the proleptic Gregorian
//! calendar; an `IsoTime` a time of day down to the nanosecond; an
//! `IsoDateTime` both, within the window of representable instants.
use vstd::prelude::*;
use crate::calendar::CalendarProtocol;
use crate::duration::{DateDuration, NormalizedTimeDuration, TimeDuration};
use crate::epoch::{
    days_before_year, days_in_month, epoch_days, epoch_days_from_month_offset, epoch_days_of,
    floor_div, floor_mod, is_representable_epoch_day, is_valid_ymd, iso_date_to_epoch_days,
    iso_days_in_month, lemma_epoch_days_injective, lemma_representable_bounds,
    lemma_valid_within_year, lemma_year_monotone, lemma_days_before_year_bound, ymd_from_epoch_days,
    MAX_REPRESENTABLE_EPOCH_DAYS, MIN_REPRESENTABLE_EPOCH_DAYS,
};
use crate::error::{TemporalError, TemporalResult};
use crate::options::{
    unit_nanoseconds, ArithmeticOverflow, RoundingIncrement, TemporalRoundingMode, TemporalUnit,
    NS_PER_DAY,
};
use crate::rounding::{round_quantity, round_to_increment};

verus! {

/// The latest representable instant, in nanoseconds since the epoch.
pub const NS_MAX_INSTANT: i128 = 8_640_000_000_000_000_000_000;

/// The earliest representable instant, in nanoseconds since the epoch.
pub const NS_MIN_INSTANT: i128 = -8_640_000_000_000_000_000_000;

/// Largest distance in days from the epoch of a date.
pub const MAX_EPOCH_DAYS_DISTANCE: i64 = 100_000_001;

// ==== Time of day ====

/// Nanoseconds denoted by the six time fields, each of any sign or size.
pub open spec fn total_nanos(h: int, m: int, s: int, ms: int, us: int, ns: int) -> int {
    ((((h * 60 + m) * 60 + s) * 1000 + ms) * 1000 + us) * 1000 + ns
}

pub open spec fn is_valid_time_fields(h: int, m: int, s: int, ms: int, us: int, ns: int) -> bool {
    0 <= h <= 23 && 0 <= m <= 59 && 0 <= s <= 59 && 0 <= ms <= 999 && 0 <= us <= 999 && 0 <= ns
        <= 999
}

/// The time of day `x` nanoseconds after midnight, for `0 <= x < NS_PER_DAY`.
pub open spec fn time_from_nanos(x: int) -> IsoTime {
    let us_total = x / 1000;
    let ms_total = us_total / 1000;
    let s_total = ms_total / 1000;
    let min_total = s_total / 60;
    IsoTime {
        hour: (min_total / 60) as u8,
        minute: (min_total % 60) as u8,
        second: (s_total % 60) as u8,
        millisecond: (ms_total % 1000) as u16,
        microsecond: (us_total % 1000) as u16,
        nanosecond: (x % 1000) as u16,
    }
}

/// Whole days and the time of day that `total` nanoseconds after a midnight
/// come to, with the time of day always non-negative.
pub open spec fn balanced(total: int) -> (int, IsoTime) {
    (total / (NS_PER_DAY as int), time_from_nanos(total % (NS_PER_DAY as int)))
}

pub open spec fn clamp(x: int, lo: int, hi: int) -> int {
    if x < lo {
        lo
    } else if x > hi {
        hi
    } else {
        x
    }
}

/// `IsoTime` is a time of day: hour, minute, second, millisecond,
/// microsecond and nanosecond.
#[derive(Debug, Clone, Copy, PartialEq, Eq, Structural, PartialOrd, Ord)]
pub struct IsoTime {
    pub hour: u8,
    pub minute: u8,
    pub second: u8,
    pub millisecond: u16,
    pub microsecond: u16,
    pub nanosecond: u16,
}

impl IsoTime {
    /// Every field lies in its range.
    pub open spec fn is_valid_spec(self) -> bool {
        is_valid_time_fields(
            self.hour as int,
            self.minute as int,
            self.second as int,
            self.millisecond as int,
            self.microsecond as int,
            self.nanosecond as int,
        )
    }

    /// Nanoseconds since midnight.
    pub open spec fn nanos_since_midnight(self) -> int {
        total_nanos(
            self.hour as int,
            self.minute as int,
            self.second as int,
            self.millisecond as int,
            self.microsecond as int,
            self.nanosecond as int,
        )
    }
}

/// `time_from_nanos` gives a valid time that counts back to its argument.
pub proof fn lemma_time_from_nanos(x: int)
    requires
        0 <= x < NS_PER_DAY,
    ensures
        time_from_nanos(x).is_valid_spec(),
        time_from_nanos(x).nanos_since_midnight() == x,
{
    let us_total = x / 1000;
    let ms_total = us_total / 1000;
    let s_total = ms_total / 1000;
    let min_total = s_total / 60;
    assert(x == us_total * 1000 + x % 1000);
    assert(us_total == ms_total * 1000 + us_total % 1000);
    assert(ms_total == s_total * 1000 + ms_total % 1000);
    assert(s_total == min_total * 60 + s_total % 60);
    assert(min_total == (min_total / 60) * 60 + min_total % 60);
    assert(min_total / 60 <= 23);
}

/// A valid time is recovered from its nanoseconds since midnight.
pub proof fn lemma_nanos_of_valid_time(t: IsoTime)
    requires
        t.is_valid_spec(),
    ensures
        0 <= t.nanos_since_midnight() < NS_PER_DAY,
        time_from_nanos(t.nanos_since_midnight()) == t,
{
    let x = t.nanos_since_midnight();
    let us_total = t.hour * 3_600_000_000 + t.minute * 60_000_000 + t.second * 1_000_000
        + t.millisecond * 1000 + t.microsecond;
    let ms_total = t.hour * 3_600_000 + t.minute * 60_000 + t.second * 1000 + t.millisecond;
    let s_total = t.hour * 3600 + t.minute * 60 + t.second;
    let min_total = t.hour * 60 + t.minute;
    assert(x / 1000 == us_total);
    assert(us_total / 1000 == ms_total);
    assert(ms_total / 1000 == s_total);
    assert(s_total / 60 == min_total);
    assert(min_total / 60 == t.hour);
}

impl IsoTime {
    /// Creates a new `IsoTime` without any validation.
    pub fn new_unchecked(
        hour: u8,
        minute: u8,
        second: u8,
        millisecond: u16,
        microsecond: u16,
        nanosecond: u16,
    ) -> (r: Self)
        ensures
            r == (IsoTime { hour, minute, second, millisecond, microsecond, nanosecond }),
    {
        IsoTime { hour, minute, second, millisecond, microsecond, nanosecond }
    }

    /// Creates a new regulated `IsoTime`: under `Constrain` each field is
    /// clamped into its own range, under `Reject` any field out of range
    /// fails.
    pub fn new(
        hour: i32,
        minute: i32,
        second: i32,
        millisecond: i32,
        microsecond: i32,
        nanosecond: i32,
        overflow: ArithmeticOverflow,
    ) -> (r: TemporalResult<IsoTime>)
        ensures
            overflow == ArithmeticOverflow::Constrain ==> r == Ok::<IsoTime, TemporalError>(
                IsoTime {
                    hour: clamp(hour as int, 0, 23) as u8,
                    minute: clamp(minute as int, 0, 59) as u8,
                    second: clamp(second as int, 0, 59) as u8,
                    millisecond: clamp(millisecond as int, 0, 999) as u16,
                    microsecond: clamp(microsecond as int, 0, 999) as u16,
                    nanosecond: clamp(nanosecond as int, 0, 999) as u16,
                },
            ),
            overflow == ArithmeticOverflow::Reject ==> {
                if is_valid_time_fields(
                    hour as int,
                    minute as int,
                    second as int,
                    millisecond as int,
                    microsecond as int,
                    nanosecond as int,
                ) {
                    r == Ok::<IsoTime, TemporalError>(
                        IsoTime {
                            hour: hour as u8,
                            minute: minute as u8,
                            second: second as u8,
                            millisecond: millisecond as u16,
                            microsecond: microsecond as u16,
                            nanosecond: nanosecond as u16,
                        },
                    )
                } else {
                    r == Err::<IsoTime, TemporalError>(TemporalError::InvalidTime)
                }
            },
    {
        match overflow {
            ArithmeticOverflow::Constrain => {
                let h = clamp_i32(hour, 0, 23) as u8;
                let min = clamp_i32(minute, 0, 59) as u8;
                let sec = clamp_i32(second, 0, 59) as u8;
                let milli = clamp_i32(millisecond, 0, 999) as u16;
                let micro = clamp_i32(microsecond, 0, 999) as u16;
                let nano = clamp_i32(nanosecond, 0, 999) as u16;
                Ok(Self::new_unchecked(h, min, sec, milli, micro, nano))
            },
            ArithmeticOverflow::Reject => {
                if !is_valid_time(hour, minute, second, millisecond, microsecond, nanosecond) {
                    return Err(TemporalError::InvalidTime);
                }
                Ok(
                    Self::new_unchecked(
                        hour as u8,
                        minute as u8,
                        second as u8,
                        millisecond as u16,
                        microsecond as u16,
                        nanosecond as u16,
                    ),
                )
            },
        }
    }

    /// Returns an `IsoTime` set to 12:00:00.
    pub fn noon() -> (r: Self)
        ensures
            r == (IsoTime {
                hour: 12,
                minute: 0,
                second: 0,
                millisecond: 0,
                microsecond: 0,
                nanosecond: 0,
            }),
    {
        IsoTime { hour: 12, minute: 0, second: 0, millisecond: 0, microsecond: 0, nanosecond: 0 }
    }

    /// Returns an `IsoTime` set to midnight.
    pub fn midnight() -> (r: Self)
        ensures
            r == (IsoTime {
                hour: 0,
                minute: 0,
                second: 0,
                millisecond: 0,
                microsecond: 0,
                nanosecond: 0,
            }),
    {
        IsoTime { hour: 0, minute: 0, second: 0, millisecond: 0, microsecond: 0, nanosecond: 0 }
    }

    /// Balances six time fields of any sign into whole days and a valid
    /// time of day, carrying nanoseconds up to days with floor division so
    /// that the remainder is never negative.
    pub fn balance(
        hour: i64,
        minute: i64,
        second: i64,
        millisecond: i64,
        microsecond: i64,
        nanosecond: i64,
    ) -> (r: (i64, Self))
        ensures
            r.0 == balanced(
                total_nanos(
                    hour as int,
                    minute as int,
                    second as int,
                    millisecond as int,
                    microsecond as int,
                    nanosecond as int,
                ),
            ).0,
            r.1 == balanced(
                total_nanos(
                    hour as int,
                    minute as int,
                    second as int,
                    millisecond as int,
                    microsecond as int,
                    nanosecond as int,
                ),
            ).1,
            r.1.is_valid_spec(),
    {
        let total = ((((hour as i128 * 60 + minute as i128) * 60 + second as i128) * 1000
            + millisecond as i128) * 1000 + microsecond as i128) * 1000 + nanosecond as i128;
        balance_nanos(total)
    }

    /// Per-field differences `other - self`, not carried.
    pub fn diff(&self, other: &Self) -> (r: TimeDuration)
        ensures
            r.hours == other.hour - self.hour,
            r.minutes == other.minute - self.minute,
            r.seconds == other.second - self.second,
            r.milliseconds == other.millisecond - self.millisecond,
            r.microseconds == other.microsecond - self.microsecond,
            r.nanoseconds == other.nanosecond - self.nanosecond,
    {
        TimeDuration::new_unchecked(
            other.hour as i64 - self.hour as i64,
            other.minute as i64 - self.minute as i64,
            other.second as i64 - self.second as i64,
            other.millisecond as i64 - self.millisecond as i64,
            other.microsecond as i64 - self.microsecond as i64,
            other.nanosecond as i64 - self.nanosecond as i64,
        )
    }

    /// Checks that every field lies in its range.
    pub fn is_valid(&self) -> (r: bool)
        ensures
            r == self.is_valid_spec(),
    {
        is_valid_time(
            self.hour as i32,
            self.minute as i32,
            self.second as i32,
            self.millisecond as i32,
            self.microsecond as i32,
            self.nanosecond as i32,
        )
    }

    /// Adds a normalized time duration; returns the whole days carried and
    /// the balanced time of day.
    pub fn add(&self, norm: NormalizedTimeDuration) -> (r: (i64, Self))
        ensures
            r.0 == balanced(self.nanos_since_midnight() + norm.total()).0,
            r.1 == balanced(self.nanos_since_midnight() + norm.total()).1,
            r.1.is_valid_spec(),
    {
        let ns = norm.nanoseconds();
        let total = ((((self.hour as i128 * 60 + self.minute as i128) * 60 + self.second as i128)
            * 1000 + self.millisecond as i128) * 1000 + self.microsecond as i128) * 1000
            + self.nanosecond as i128 + ns;
        balance_nanos(total)
    }

    /// Milliseconds since midnight of the hour, minute, second and
    /// millisecond fields.
    pub fn to_epoch_ms(self) -> (r: i64)
        ensures
            r == self.hour * 3_600_000 + self.minute * 60_000 + self.second * 1000
                + self.millisecond,
    {
        self.hour as i64 * 3_600_000 + self.minute as i64 * 60_000 + self.second as i64 * 1000
            + self.millisecond as i64
    }
}

fn clamp_i32(x: i32, lo: i32, hi: i32) -> (r: i32)
    requires
        lo <= hi,
    ensures
        r == clamp(x as int, lo as int, hi as int),
{
    if x < lo {
        lo
    } else if x > hi {
        hi
    } else {
        x
    }
}

/// The time of day `x` nanoseconds after midnight.
fn time_of_day(x: i128) -> (r: IsoTime)
    requires
        0 <= x < NS_PER_DAY,
    ensures
        r == time_from_nanos(x as int),
{
    let us_total = x / 1000;
    let ms_total = us_total / 1000;
    let s_total = ms_total / 1000;
    let min_total = s_total / 60;
    IsoTime {
        hour: (min_total / 60) as u8,
        minute: (min_total % 60) as u8,
        second: (s_total % 60) as u8,
        millisecond: (ms_total % 1000) as u16,
        microsecond: (us_total % 1000) as u16,
        nanosecond: (x % 1000) as u16,
    }
}

/// Splits a signed count of nanoseconds after a midnight into whole days
/// and a time of day.
fn balance_nanos(total: i128) -> (r: (i64, IsoTime))
    requires
        -0x1000_0000_0000_0000_0000_0000_0000 <= total <= 0x1000_0000_0000_0000_0000_0000_0000,
    ensures
        r.0 == balanced(total as int).0,
        r.1 == balanced(total as int).1,
        r.1.is_valid_spec(),
{
    let days = floor_div(total, NS_PER_DAY as i128);
    let rest = floor_mod(total, NS_PER_DAY as i128);
    proof {
        lemma_time_from_nanos(rest as int);
    }
    (days as i64, time_of_day(rest))
}

/// Checks that every time field lies in its range.
fn is_valid_time(hour: i32, minute: i32, second: i32, ms: i32, mis: i32, ns: i32) -> (r: bool)
    ensures
        r == is_valid_time_fields(
            hour as int,
            minute as int,
            second as int,
            ms as int,
            mis as int,
            ns as int,
        ),
{
    if !(0 <= hour && hour <= 23) {
        return false;
    }
    if !(0 <= minute && minute <= 59) || !(0 <= second && second <= 59) {
        return false;
    }
    (0 <= ms && ms <= 999) && (0 <= mis && mis <= 999) && (0 <= ns && ns <= 999)
}

// ==== Range limits ====

/// 12:00:00, the time of day at which a lone date is held to the limits.
pub open spec fn noon_time() -> IsoTime {
    IsoTime { hour: 12, minute: 0, second: 0, millisecond: 0, microsecond: 0, nanosecond: 0 }
}

/// Nanoseconds since the epoch of `date` at `time`, at zero offset.
pub open spec fn epoch_nanos_of(date: IsoDate, time: IsoTime) -> int {
    date.epoch_day_number() * NS_PER_DAY + time.nanos_since_midnight()
}

/// The date lies at most 100,000,001 days from the epoch, and the date and
/// time lie strictly within one day beyond the representable instants.
pub open spec fn within_limits(date: IsoDate, time: IsoTime) -> bool {
    &&& -MAX_EPOCH_DAYS_DISTANCE <= date.epoch_day_number() <= MAX_EPOCH_DAYS_DISTANCE
    &&& NS_MIN_INSTANT - NS_PER_DAY < epoch_nanos_of(date, time) < NS_MAX_INSTANT + NS_PER_DAY
}

/// Returns whether `date` at `time` lies within the valid limits.
fn iso_dt_within_valid_limits(date: IsoDate, time: &IsoTime) -> (r: bool)
    ensures
        r == within_limits(date, *time),
{
    let days = iso_date_to_epoch_days(date.year, date.month as i32 - 1, date.day as i32);
    if days < -MAX_EPOCH_DAYS_DISTANCE || days > MAX_EPOCH_DAYS_DISTANCE {
        return false;
    }
    let ns = utc_epoch_nanos(date, time, 0);
    let max = NS_MAX_INSTANT + NS_PER_DAY as i128;
    let min = NS_MIN_INSTANT - NS_PER_DAY as i128;
    min < ns && max > ns
}

/// Nanoseconds since the epoch of `date` at `time`, less `offset`.
fn utc_epoch_nanos(date: IsoDate, time: &IsoTime, offset: i64) -> (r: i128)
    ensures
        r == epoch_nanos_of(date, *time) - offset,
{
    let ms = time.to_epoch_ms();
    let epoch_ms = date.to_epoch_days() as i128 * 86_400_000 + ms as i128;
    epoch_ms * 1_000_000 + time.microsecond as i128 * 1000 + time.nanosecond as i128
        - offset as i128
}

// ==== Calendar date ====

/// `IsoDate` is a year, month and day of the proleptic Gregorian calendar.
#[derive(Debug, Clone, Copy, PartialEq, Eq, Structural, PartialOrd, Ord)]
pub struct IsoDate {
    pub year: i32,
    pub month: u8,
    pub day: u8,
}

impl IsoDate {
    /// Days since 1970-01-01; a month beyond 12 carries into the year.
    pub open spec fn epoch_day_number(self) -> int {
        epoch_days_from_month_offset(self.year as int, self.month - 1, self.day as int)
    }

    /// The month and day name a day of the calendar.
    pub open spec fn has_valid_fields(self) -> bool {
        is_valid_ymd(self.year as int, self.month as int, self.day as int)
    }

    /// A valid date: its fields name a day at most 100,000,001 days from
    /// the epoch.
    pub open spec fn is_valid_spec(self) -> bool {
        self.has_valid_fields() && -MAX_EPOCH_DAYS_DISTANCE <= self.epoch_day_number()
            <= MAX_EPOCH_DAYS_DISTANCE
    }
}

/// The date that falls on epoch day `n`, for an `n` in a year that `i32`
/// holds.
pub open spec fn date_of_epoch_day(n: int) -> IsoDate {
    choose|d: IsoDate| d.has_valid_fields() && d.epoch_day_number() == n
}

/// The date that year `y`, month `m` and day `d` come to under `overflow`:
/// clamped or rejected when out of range, then held to the limits at noon.
pub open spec fn regulate_date(y: int, m: int, d: int, overflow: ArithmeticOverflow) -> TemporalResult<IsoDate> {
    if !(i32::MIN <= y <= i32::MAX) {
        Err(TemporalError::DateOutOfRange)
    } else {
        let fields: Option<(int, int)> = match overflow {
            ArithmeticOverflow::Constrain => {
                let m2 = clamp(m, 1, 12);
                Some((m2, clamp(d, 1, days_in_month(y, m2))))
            },
            ArithmeticOverflow::Reject => {
                if is_valid_ymd(y, m, d) {
                    Some((m, d))
                } else {
                    None
                }
            },
        };
        match fields {
            None => Err(TemporalError::InvalidDate),
            Some(f) => {
                let date = IsoDate { year: y as i32, month: f.0 as u8, day: f.1 as u8 };
                if within_limits(date, noon_time()) {
                    Ok(date)
                } else {
                    Err(TemporalError::DateOutOfRange)
                }
            },
        }
    }
}

/// What adding `dur` to `date` under `overflow` gives: years and months
/// carry field by field and the day is regulated in the new month; weeks
/// and days then count on linearly.
pub open spec fn add_date_duration_spec(
    date: IsoDate,
    dur: DateDuration,
    overflow: ArithmeticOverflow,
) -> TemporalResult<IsoDate> {
    let y = date.year + dur.years;
    let m = date.month + dur.months;
    match regulate_date(y + (m - 1) / 12, (m - 1) % 12 + 1, date.day as int, overflow) {
        Err(e) => Err(e),
        Ok(mid) => {
            let n = mid.epoch_day_number() + dur.days + 7 * dur.weeks;
            if is_representable_epoch_day(n) {
                Ok(date_of_epoch_day(n))
            } else {
                Err(TemporalError::DateOutOfRange)
            }
        },
    }
}

/// A valid date is the date of its own epoch day.
pub proof fn lemma_epoch_days_round_trip(d: IsoDate)
    requires
        d.has_valid_fields(),
    ensures
        date_of_epoch_day(d.epoch_day_number()) == d,
{
    let c = date_of_epoch_day(d.epoch_day_number());
    assert(d.has_valid_fields() && d.epoch_day_number() == d.epoch_day_number());
    lemma_epoch_days_injective(
        c.year as int,
        c.month as int,
        c.day as int,
        d.year as int,
        d.month as int,
        d.day as int,
    );
}

/// The date that falls on epoch day `days`.
pub fn epoch_days_to_date(days: i64) -> (r: IsoDate)
    requires
        is_representable_epoch_day(days as int),
    ensures
        r == date_of_epoch_day(days as int),
        r.has_valid_fields(),
        r.epoch_day_number() == days,
{
    let (y, m, d) = ymd_from_epoch_days(days);
    let r = IsoDate { year: y, month: m, day: d };
    proof {
        lemma_epoch_days_round_trip(r);
    }
    r
}

/// Returns whether `month` and `day` name a day of `year`.
fn is_valid_date(year: i32, month: i32, day: i32) -> (r: bool)
    ensures
        r == is_valid_ymd(year as int, month as int, day as int),
{
    if !(1 <= month && month <= 12) {
        return false;
    }
    let days_in_month = iso_days_in_month(year as i128, month as i128) as i32;
    1 <= day && day <= days_in_month
}

/// Carries a month of any size into the year: month 13 is January of the
/// next year, month 0 December of the year before.
fn balance_iso_year_month(year: i64, month: i64) -> (r: (i64, i64))
    requires
        i64::MIN <= year + (month - 1) / 12 <= i64::MAX,
    ensures
        r.0 == year + (month - 1) / 12,
        r.1 == (month - 1) % 12 + 1,
{
    let y = year as i128 + floor_div(month as i128 - 1, 12);
    let m = floor_mod(month as i128 - 1, 12) + 1;
    (y as i64, m as i64)
}

impl IsoDate {
    /// Creates a new `IsoDate` without determining the validity.
    pub fn new_unchecked(year: i32, month: u8, day: u8) -> (r: Self)
        ensures
            r == (IsoDate { year, month, day }),
    {
        IsoDate { year, month, day }
    }

    /// Creates a regulated `IsoDate`, held to the limits at noon.
    pub fn new(year: i32, month: i32, day: i32, overflow: ArithmeticOverflow) -> (r: TemporalResult<Self>)
        ensures
            r == regulate_date(year as int, month as int, day as int, overflow),
    {
        let id = match overflow {
            ArithmeticOverflow::Constrain => {
                let month = clamp_i32(month, 1, 12);
                let days_in_month = iso_days_in_month(year as i128, month as i128) as i32;
                let d = clamp_i32(day, 1, days_in_month);
                Self::new_unchecked(year, month as u8, d as u8)
            },
            ArithmeticOverflow::Reject => {
                if !is_valid_date(year, month, day) {
                    return Err(TemporalError::InvalidDate);
                }
                Self::new_unchecked(year, month as u8, day as u8)
            },
        };
        if !iso_dt_within_valid_limits(id, &IsoTime::noon()) {
            return Err(TemporalError::DateOutOfRange);
        }
        Ok(id)
    }

    /// The canonical date of year `year`, month `month` and day `day`, where
    /// the month and day may lie out of range. It does not hold the date to
    /// the limits; it fails only when the year does not fit in `i32`.
    pub fn balance(year: i32, month: i32, day: i64) -> (r: TemporalResult<Self>)
        ensures
            r is Ok <==> is_representable_epoch_day(
                epoch_days_from_month_offset(year as int, month - 1, day as int),
            ),
            r matches Ok(d) ==> d == date_of_epoch_day(
                epoch_days_from_month_offset(year as int, month - 1, day as int),
            ),
            r matches Ok(d) ==> d.has_valid_fields() && d.epoch_day_number()
                == epoch_days_from_month_offset(year as int, month - 1, day as int),
            r matches Err(e) ==> e == TemporalError::DateOutOfRange,
    {
        let (y, m) = balance_iso_year_month(year as i64, month as i64);
        let n = epoch_days_of(y, m, day);
        proof {
            lemma_representable_bounds();
        }
        if n < MIN_REPRESENTABLE_EPOCH_DAYS as i128 || n > MAX_REPRESENTABLE_EPOCH_DAYS as i128 {
            return Err(TemporalError::DateOutOfRange);
        }
        Ok(epoch_days_to_date(n as i64))
    }

    /// Days since 1970-01-01.
    pub fn to_epoch_days(self) -> (r: i64)
        ensures
            r == self.epoch_day_number(),
    {
        iso_date_to_epoch_days(self.year, self.month as i32 - 1, self.day as i32)
    }

    /// Returns whether the month and day name a day of the year.
    pub fn is_valid(self) -> (r: bool)
        ensures
            r == self.is_valid_spec(),
    {
        if !is_valid_date(self.year, self.month as i32, self.day as i32) {
            return false;
        }
        let days = self.to_epoch_days();
        -MAX_EPOCH_DAYS_DISTANCE <= days && days <= MAX_EPOCH_DAYS_DISTANCE
    }

    /// Adds a date duration: years and months carry field by field and the
    /// day is regulated in the resulting month under `overflow`; weeks and
    /// days then count on linearly.
    pub fn add_date_duration(self, duration: &DateDuration, overflow: ArithmeticOverflow) -> (r: TemporalResult<Self>)
        ensures
            r == add_date_duration_spec(self, *duration, overflow),
            r matches Ok(d) ==> d.has_valid_fields(),
    {
        let y = self.year as i128 + duration.years as i128;
        let m = self.month as i128 + duration.months as i128;
        let year = y + floor_div(m - 1, 12);
        let month = floor_mod(m - 1, 12) + 1;
        if year < i32::MIN as i128 || year > i32::MAX as i128 {
            return Err(TemporalError::DateOutOfRange);
        }
        let intermediate = match Self::new(year as i32, month as i32, self.day as i32, overflow) {
            Ok(d) => d,
            Err(e) => return Err(e),
        };
        let additional_days = duration.days as i128 + duration.weeks as i128 * 7;
        let d = intermediate.day as i128 + additional_days;
        proof {
            lemma_representable_bounds();
        }
        if d < i64::MIN as i128 || d > i64::MAX as i128 {
            return Err(TemporalError::DateOutOfRange);
        }
        Self::balance(intermediate.year, intermediate.month as i32, d as i64)
    }
}

// ==== Calendar difference ====

/// -1, 0 or 1 as `a` comes before, is, or comes after `b`, comparing year,
/// then month, then day; a day beyond its month compares as its number.
pub open spec fn compare_dates(a: IsoDate, b: IsoDate) -> int {
    if a.year < b.year || (a.year == b.year && (a.month < b.month || (a.month == b.month
        && a.day < b.day))) {
        -1
    } else if a == b {
        0
    } else {
        1
    }
}

/// Months since year 0 of the month `m` (1-based) of year `y`.
pub open spec fn month_index(y: int, m: int) -> int {
    y * 12 + m - 1
}

/// The signed number of months by which `a`'s year and month can move
/// toward `b`, keeping `a`'s day, and not pass `b`: the last candidate that
/// a step-by-step search from `a` reaches before it surpasses `b`.
pub open spec fn months_between(a: IsoDate, b: IsoDate) -> int {
    let gap = month_index(b.year as int, b.month as int) - month_index(a.year as int, a.month as int);
    let c = compare_dates(a, b);
    if c < 0 {
        if a.day > b.day {
            gap - 1
        } else {
            gap
        }
    } else if c > 0 {
        if a.day < b.day {
            gap + 1
        } else {
            gap
        }
    } else {
        0
    }
}

/// The (years, months, weeks, days) from `a` to `b` with `largest` as the
/// largest unit. Years and months are the whole ones that do not pass `b`;
/// the days are counted from `a` moved by them, its day clamped into the
/// month it lands in; for weeks the days are split by Euclidean division.
pub open spec fn diff_iso_date_spec(a: IsoDate, b: IsoDate, largest: TemporalUnit) -> (int, int, int, int) {
    if compare_dates(a, b) == 0 {
        (0, 0, 0, 0)
    } else {
        let total = months_between(a, b);
        let years = if largest == TemporalUnit::Year {
            whole_years(total)
        } else {
            0
        };
        let months = if largest == TemporalUnit::Year || largest == TemporalUnit::Month {
            total - 12 * years
        } else {
            0
        };
        let m = a.month + months;
        let y1 = a.year + years + (m - 1) / 12;
        let m1 = (m - 1) % 12 + 1;
        let d1 = clamp(a.day as int, 1, days_in_month(y1, m1));
        let days = b.epoch_day_number() - epoch_days(y1, m1, d1);
        if largest == TemporalUnit::Week {
            (years, months, days / 7, days % 7)
        } else {
            (years, months, 0, days)
        }
    }
}

/// The year of a valid date lies within 300,000 years of year 0.
pub proof fn lemma_valid_date_year_bound(d: IsoDate)
    requires
        d.is_valid_spec(),
    ensures
        -300_000 <= d.year <= 300_000,
        d.epoch_day_number() == epoch_days(d.year as int, d.month as int, d.day as int),
{
    reveal(days_before_year);
    lemma_valid_within_year(d.year as int, d.month as int, d.day as int);
    if d.year > 300_000 {
        lemma_year_monotone(300_000, d.year as int);
    }
    if d.year < -300_000 {
        lemma_year_monotone(d.year + 1, -300_000);
    }
}

/// Compares two dates by year, month and day.
fn compare_iso_date(a: &IsoDate, b: &IsoDate) -> (r: i64)
    ensures
        r == compare_dates(*a, *b),
{
    if a.year < b.year || (a.year == b.year && (a.month < b.month || (a.month == b.month && a.day
        < b.day))) {
        -1
    } else if a.year == b.year && a.month == b.month && a.day == b.day {
        0
    } else {
        1
    }
}

/// Whether `t` lies beyond `b` in the direction of `sign`.
pub open spec fn surpasses(t: IsoDate, b: IsoDate, sign: int) -> bool {
    compare_dates(t, b) * sign == 1
}

/// `x` measured in the direction of `sign`.
pub open spec fn toward(sign: int, x: int) -> int {
    if sign > 0 {
        x
    } else {
        -x
    }
}

/// The whole years in a signed count of months, truncated toward zero.
pub open spec fn whole_years(total: int) -> int {
    if total >= 0 {
        total / 12
    } else {
        -((-total) / 12)
    }
}

/// A date with `a`'s day in another month surpasses `b` exactly when its
/// month lies beyond `a`'s by more than `months_between(a, b)`.
proof fn lemma_surpasses_months(a: IsoDate, b: IsoDate, t: IsoDate)
    requires
        a.has_valid_fields(),
        b.has_valid_fields(),
        compare_dates(a, b) != 0,
        t.day == a.day,
        1 <= t.month <= 12,
    ensures
        surpasses(t, b, -compare_dates(a, b)) <==> toward(
            -compare_dates(a, b),
            month_index(t.year as int, t.month as int) - month_index(a.year as int, a.month as int),
        ) > toward(-compare_dates(a, b), months_between(a, b)),
{
    lemma_month_index_order(t, b);
    lemma_month_index_order(a, b);
    let c = compare_dates(t, b);
    if compare_dates(a, b) == -1 {
        assert(c * 1 == c);
    } else {
        assert(c * -1 == -c);
    }
}

/// `months_between` lies in the direction of `b`, and the search for whole
/// years starts at or before the count it ends on.
proof fn lemma_months_between_facts(a: IsoDate, b: IsoDate)
    requires
        a.is_valid_spec(),
        b.is_valid_spec(),
        compare_dates(a, b) != 0,
    ensures
        ({
            let sign = -compare_dates(a, b);
            let total = months_between(a, b);
            let yd = b.year - a.year;
            let c0 = if yd != 0 { yd - sign } else { 0 };
            &&& toward(sign, total) >= 0
            &&& -7_200_013 <= total <= 7_200_013
            &&& toward(sign, c0) <= toward(sign, whole_years(total))
            &&& toward(sign, total - 12 * whole_years(total)) >= 0
            &&& -12 < total - 12 * whole_years(total) < 12
        }),
{
    lemma_valid_date_year_bound(a);
    lemma_valid_date_year_bound(b);
    lemma_month_index_order(a, b);
    let total = months_between(a, b);
    let w = whole_years(total);
    if total >= 0 {
        assert(w * 12 <= total < w * 12 + 12);
    } else {
        assert((-total) / 12 * 12 <= -total < (-total) / 12 * 12 + 12);
    }
}

/// Months since year 0 order dates with months in range as their year and
/// month fields do.
proof fn lemma_month_index_order(t: IsoDate, b: IsoDate)
    requires
        1 <= t.month <= 12,
        1 <= b.month <= 12,
    ensures
        t.year < b.year ==> month_index(t.year as int, t.month as int) + b.month - 12 < month_index(
            b.year as int,
            b.month as int,
        ) - t.month + 1,
        t.year > b.year ==> month_index(t.year as int, t.month as int) - t.month + 1 > month_index(
            b.year as int,
            b.month as int,
        ) + 12 - b.month,
        t.year == b.year ==> month_index(t.year as int, t.month as int) - month_index(
            b.year as int,
            b.month as int,
        ) == t.month - b.month,
{
}

/// Returns whether `this` lies beyond `other` in the direction of `sign`.
fn iso_date_surpasses(this: &IsoDate, other: &IsoDate, sign: i64) -> (r: bool)
    requires
        -1 <= sign <= 1,
    ensures
        r == surpasses(*this, *other, sign as int),
{
    compare_iso_date(this, other) * sign == 1
}

/// The year and month that `a` moves to by `years` and `months`, and its
/// day clamped into that month.
fn moved_year_month_day(a: &IsoDate, years: i64, months: i64) -> (r: (i64, i64, u8))
    requires
        a.is_valid_spec(),
        -7_200_013 <= years <= 7_200_013,
        -7_200_013 <= months <= 7_200_013,
    ensures
        r.0 == a.year + years + (a.month + months - 1) / 12,
        r.1 == (a.month + months - 1) % 12 + 1,
        r.2 == clamp(a.day as int, 1, days_in_month(r.0 as int, r.1 as int)),
        -10_000_000 <= r.0 <= 10_000_000,
{
    proof {
        lemma_valid_date_year_bound(*a);
    }
    let (year, month) = balance_iso_year_month(a.year as i64 + years, a.month as i64 + months);
    let days_in_month = iso_days_in_month(year as i128, month as i128);
    let day = if a.day > days_in_month {
        days_in_month
    } else {
        a.day
    };
    (year, month, day)
}

impl IsoDate {
    /// The signed (years, months, weeks, days) from `self` to `other`, with
    /// `largest_unit` as the largest unit.
    #[verifier::rlimit(50)]
    pub fn diff_iso_date(&self, other: &Self, largest_unit: TemporalUnit) -> (r: TemporalResult<DateDuration>)
        requires
            self.is_valid_spec(),
            other.is_valid_spec(),
        ensures
            r matches Ok(d) && d.years == diff_iso_date_spec(*self, *other, largest_unit).0
                && d.months == diff_iso_date_spec(*self, *other, largest_unit).1
                && d.weeks == diff_iso_date_spec(*self, *other, largest_unit).2
                && d.days == diff_iso_date_spec(*self, *other, largest_unit).3,
    {
        let sign = -compare_iso_date(self, other);
        if sign == 0 {
            return Ok(DateDuration::zero());
        }
        proof {
            lemma_valid_date_year_bound(*self);
            lemma_valid_date_year_bound(*other);
            lemma_months_between_facts(*self, *other);
        }
        let ghost total = months_between(*self, *other);
        let mut years: i64 = 0;
        if largest_unit == TemporalUnit::Year {
            let ghost target = whole_years(total);
            let mut candidate_years: i64 = other.year as i64 - self.year as i64;
            if candidate_years != 0 {
                candidate_years = candidate_years - sign;
            }
            let ghost first: int = candidate_years as int;
            while !iso_date_surpasses(
                &IsoDate::new_unchecked((self.year as i64 + candidate_years) as i32, self.month, self.day),
                other,
                sign,
            )
                invariant
                    sign == -compare_dates(*self, *other),
                    sign == 1 || sign == -1,
                    self.is_valid_spec(),
                    other.is_valid_spec(),
                    -300_000 <= self.year <= 300_000,
                    total == months_between(*self, *other),
                    target == whole_years(total),
                    -7_200_013 <= total <= 7_200_013,
                    toward(sign as int, first as int) <= toward(sign as int, candidate_years as int) <= toward(sign as int, target) + 1,
                    toward(sign as int, first as int) <= toward(sign as int, target),
                    -600_001 <= first <= 600_001,
                    -600_001 <= target <= 600_001,
                    candidate_years == first || years == candidate_years - sign,
                decreases toward(sign as int, target - candidate_years) + 1,
            {
                proof {
                    lemma_surpasses_months(
                        *self,
                        *other,
                        IsoDate { year: (self.year + candidate_years) as i32, month: self.month, day: self.day },
                    );
                }
                years = candidate_years;
                candidate_years = candidate_years + sign;
            }
            proof {
                lemma_surpasses_months(
                    *self,
                    *other,
                    IsoDate { year: (self.year + candidate_years) as i32, month: self.month, day: self.day },
                );
            }
        }
        let mut months: i64 = 0;
        if largest_unit == TemporalUnit::Year || largest_unit == TemporalUnit::Month {
            let ghost target = total - 12 * years;
            let mut candidate_months: i64 = sign;
            let mut intermediate = balance_iso_year_month(
                self.year as i64 + years,
                self.month as i64 + candidate_months,
            );
            while !iso_date_surpasses(
                &IsoDate::new_unchecked(intermediate.0 as i32, intermediate.1 as u8, self.day),
                other,
                sign,
            )
                invariant
                    sign == -compare_dates(*self, *other),
                    sign == 1 || sign == -1,
                    self.is_valid_spec(),
                    other.is_valid_spec(),
                    -300_000 <= self.year <= 300_000,
                    total == months_between(*self, *other),
                    -7_200_013 <= total <= 7_200_013,
                    years == (if largest_unit == TemporalUnit::Year { whole_years(total) } else { 0 }),
                    target == total - 12 * years,
                    toward(sign as int, target) >= 0,
                    -7_200_013 <= target <= 7_200_013,
                    months == candidate_months - sign,
                    1 <= toward(sign as int, candidate_months as int) <= toward(sign as int, target) + 1,
                    1 <= intermediate.1 <= 12,
                    month_index(intermediate.0 as int, intermediate.1 as int) == month_index(
                        self.year as int,
                        self.month as int,
                    ) + 12 * years + candidate_months,
                decreases toward(sign as int, target - candidate_months) + 1,
            {
                proof {
                    lemma_surpasses_months(
                        *self,
                        *other,
                        IsoDate { year: intermediate.0 as i32, month: intermediate.1 as u8, day: self.day },
                    );
                }
                months = candidate_months;
                candidate_months = candidate_months + sign;
                intermediate = balance_iso_year_month(intermediate.0, intermediate.1 + sign);
            }
            proof {
                lemma_surpasses_months(
                    *self,
                    *other,
                    IsoDate { year: intermediate.0 as i32, month: intermediate.1 as u8, day: self.day },
                );
            }
        }
        let (year, month, day) = moved_year_month_day(self, years, months);
        proof {
            lemma_days_before_year_bound(year as int, 10_000_000);
        }
        let days = (other.to_epoch_days() as i128 - epoch_days_of(year, month, day as i64)) as i64;
        if largest_unit == TemporalUnit::Week {
            let weeks = floor_div(days as i128, 7) as i64;
            let rest = floor_mod(days as i128, 7) as i64;
            Ok(DateDuration::new(years, months, weeks, rest))
        } else {
            Ok(DateDuration::new(years, months, 0, days))
        }
    }
}

// ==== Rounding a time of day ====

/// Nanoseconds of `t` at and below `unit`: the whole time for a day or an
/// hour, only the finer fields for the smaller units.
pub open spec fn rounding_quantity(t: IsoTime, unit: TemporalUnit) -> int {
    match unit {
        TemporalUnit::Day | TemporalUnit::Hour => t.nanos_since_midnight(),
        TemporalUnit::Minute => total_nanos(0, t.minute as int, t.second as int, t.millisecond as int, t.microsecond as int, t.nanosecond as int),
        TemporalUnit::Second => total_nanos(0, 0, t.second as int, t.millisecond as int, t.microsecond as int, t.nanosecond as int),
        TemporalUnit::Millisecond => total_nanos(0, 0, 0, t.millisecond as int, t.microsecond as int, t.nanosecond as int),
        TemporalUnit::Microsecond => total_nanos(0, 0, 0, 0, t.microsecond as int, t.nanosecond as int),
        _ => t.nanosecond as int,
    }
}

/// Width of `unit` in nanoseconds; a day is `day_length_ns` long when given.
pub open spec fn rounding_unit_width(unit: TemporalUnit, day_length_ns: Option<u64>) -> int {
    if unit == TemporalUnit::Day {
        match day_length_ns {
            Some(n) => n as int,
            None => NS_PER_DAY as int,
        }
    } else {
        match unit_nanoseconds(unit) {
            Some(n) => n,
            None => 0,
        }
    }
}

/// What rounding `t` to `increment` units of `unit` under `mode` gives: the
/// days carried and the time of day. Fields coarser than the unit are kept,
/// the rest is replaced by the rounded count and balanced.
pub open spec fn round_time_spec(
    t: IsoTime,
    increment: int,
    unit: TemporalUnit,
    mode: TemporalRoundingMode,
    day_length_ns: Option<u64>,
) -> TemporalResult<(int, IsoTime)> {
    if unit_nanoseconds(unit) is None {
        Err(TemporalError::UnsupportedUnit)
    } else {
        let w = rounding_unit_width(unit, day_length_ns);
        let step = w * increment;
        if w == 0 || step > u64::MAX {
            Err(TemporalError::InvalidIncrement)
        } else {
            let n = round_to_increment(rounding_quantity(t, unit), step, mode) / w;
            let (h, m, s, ms, us) = (t.hour as int, t.minute as int, t.second as int, t.millisecond as int, t.microsecond as int);
            Ok(
                match unit {
                    TemporalUnit::Day => (n, IsoTime { hour: 0, minute: 0, second: 0, millisecond: 0, microsecond: 0, nanosecond: 0 }),
                    TemporalUnit::Hour => balanced(total_nanos(n, 0, 0, 0, 0, 0)),
                    TemporalUnit::Minute => balanced(total_nanos(h, n, 0, 0, 0, 0)),
                    TemporalUnit::Second => balanced(total_nanos(h, m, n, 0, 0, 0)),
                    TemporalUnit::Millisecond => balanced(total_nanos(h, m, s, n, 0, 0)),
                    TemporalUnit::Microsecond => balanced(total_nanos(h, m, s, ms, n, 0)),
                    _ => balanced(total_nanos(h, m, s, ms, us, n)),
                },
            )
        }
    }
}

/// The rounded count of units exceeds the quantity by at most the increment.
proof fn lemma_rounded_count_bound(q: int, w: int, inc: int, mode: TemporalRoundingMode)
    requires
        0 <= q,
        1 <= w,
        1 <= inc,
    ensures
        0 <= round_to_increment(q, w * inc, mode) / w <= q + inc,
{
    let step = w * inc;
    assert(step >= 1) by (nonlinear_arith)
        requires w >= 1, inc >= 1, step == w * inc;
    let k = q / step;
    assert(0 <= k * step <= q) by (nonlinear_arith)
        requires k == q / step, step >= 1, q >= 0;
    let x = round_to_increment(q, step, mode);
    assert(0 <= x <= q + step);
    assert(0 <= x / w <= q + inc) by (nonlinear_arith)
        requires 0 <= x <= q + step, step == w * inc, w >= 1, q >= 0;
}

impl IsoTime {
    /// Rounds this time of day to `increment` units of `unit` under `mode`;
    /// returns the days carried and the rounded time.
    #[verifier::rlimit(50)]
    pub fn round(
        &self,
        increment: RoundingIncrement,
        unit: TemporalUnit,
        mode: TemporalRoundingMode,
        day_length_ns: Option<u64>,
    ) -> (r: TemporalResult<(i64, Self)>)
        requires
            self.is_valid_spec(),
        ensures
            match round_time_spec(*self, increment.count(), unit, mode, day_length_ns) {
                Ok(p) => r matches Ok(q) && q.0 == p.0 && q.1 == p.1,
                Err(e) => r == Err::<(i64, IsoTime), TemporalError>(e),
            },
    {
        let ns = self.nanosecond as u64;
        let us = self.microsecond as u64;
        let ms = self.millisecond as u64;
        let sec = self.second as u64;
        let min = self.minute as u64;
        let quantity: u64 = match unit {
            TemporalUnit::Hour | TemporalUnit::Day => ns + us * 1_000 + ms * 1_000_000 + sec
                * 1_000_000_000 + min * 60_000_000_000 + self.hour as u64 * 3_600_000_000_000,
            TemporalUnit::Minute => ns + us * 1_000 + ms * 1_000_000 + sec * 1_000_000_000 + min
                * 60_000_000_000,
            TemporalUnit::Second => ns + us * 1_000 + ms * 1_000_000 + sec * 1_000_000_000,
            TemporalUnit::Millisecond => ns + us * 1_000 + ms * 1_000_000,
            TemporalUnit::Microsecond => ns + us * 1_000,
            TemporalUnit::Nanosecond => ns,
            _ => return Err(TemporalError::UnsupportedUnit),
        };
        let ns_per_unit: u64 = if unit == TemporalUnit::Day {
            match day_length_ns {
                Some(n) => n,
                None => NS_PER_DAY,
            }
        } else {
            match unit.as_nanoseconds() {
                Some(n) => n,
                None => return Err(TemporalError::UnsupportedUnit),
            }
        };
        if ns_per_unit == 0 {
            return Err(TemporalError::InvalidIncrement);
        }
        let inc = increment.as_extended_increment();
        let step = match ns_per_unit.checked_mul(inc) {
            Some(s) => s,
            None => return Err(TemporalError::InvalidIncrement),
        };
        proof {
            assert(step > 0) by (nonlinear_arith)
                requires step == ns_per_unit * inc, ns_per_unit >= 1, inc >= 1;
        }
        let rounded = round_quantity(quantity, step, mode);
        proof {
            lemma_rounded_count_bound(quantity as int, ns_per_unit as int, inc as int, mode);
        }
        let result = (rounded / ns_per_unit as u128) as i64;
        let r = match unit {
            TemporalUnit::Day => (result, IsoTime::midnight()),
            TemporalUnit::Hour => IsoTime::balance(result, 0, 0, 0, 0, 0),
            TemporalUnit::Minute => IsoTime::balance(self.hour as i64, result, 0, 0, 0, 0),
            TemporalUnit::Second => IsoTime::balance(
                self.hour as i64,
                self.minute as i64,
                result,
                0,
                0,
                0,
            ),
            TemporalUnit::Millisecond => IsoTime::balance(
                self.hour as i64,
                self.minute as i64,
                self.second as i64,
                result,
                0,
                0,
            ),
            TemporalUnit::Microsecond => IsoTime::balance(
                self.hour as i64,
                self.minute as i64,
                self.second as i64,
                self.millisecond as i64,
                result,
                0,
            ),
            _ => IsoTime::balance(
                self.hour as i64,
                self.minute as i64,
                self.second as i64,
                self.millisecond as i64,
                self.microsecond as i64,
                result,
            ),
        };
        Ok(r)
    }
}

// ==== Date and time ====

/// `IsoDateTime` is a date and a time of day.
#[derive(Debug, Clone, Copy, PartialEq, Eq, Structural)]
pub struct IsoDateTime {
    pub date: IsoDate,
    pub time: IsoTime,
}

/// A trait for accessing the `IsoDate` of the various date-bearing records.
pub trait IsoDateSlots {
    /// Returns the target's `IsoDate`.
    fn iso_date(&self) -> IsoDate;
}

impl IsoDateSlots for IsoDateTime {
    fn iso_date(&self) -> IsoDate {
        self.date
    }
}

/// The overflow policy that an absent one stands for.
pub open spec fn overflow_or_constrain(overflow: Option<ArithmeticOverflow>) -> ArithmeticOverflow {
    match overflow {
        Some(o) => o,
        None => ArithmeticOverflow::Constrain,
    }
}

impl IsoDateTime {
    /// Creates a new `IsoDateTime` without any validation.
    pub fn new_unchecked(date: IsoDate, time: IsoTime) -> (r: Self)
        ensures
            r == (IsoDateTime { date, time }),
    {
        IsoDateTime { date, time }
    }

    /// Creates a new `IsoDateTime`; fails unless it lies within the limits.
    pub fn new(date: IsoDate, time: IsoTime) -> (r: TemporalResult<Self>)
        ensures
            within_limits(date, time) ==> r == Ok::<IsoDateTime, TemporalError>(IsoDateTime { date, time }),
            !within_limits(date, time) ==> r == Err::<IsoDateTime, TemporalError>(TemporalError::DateTimeOutOfRange),
    {
        if !iso_dt_within_valid_limits(date, &time) {
            return Err(TemporalError::DateTimeOutOfRange);
        }
        Ok(Self::new_unchecked(date, time))
    }

    /// Balances a date and six time fields of any sign: the days the time
    /// carries are added to the day before the date is balanced.
    fn balance(
        year: i32,
        month: i32,
        day: i32,
        hour: i64,
        minute: i64,
        second: i64,
        millisecond: i64,
        microsecond: i64,
        nanosecond: i64,
    ) -> (r: TemporalResult<Self>)
        ensures
            ({
                let b = balanced(total_nanos(hour as int, minute as int, second as int, millisecond as int, microsecond as int, nanosecond as int));
                let n = epoch_days_from_month_offset(year as int, month - 1, day + b.0);
                &&& r is Ok <==> is_representable_epoch_day(n)
                &&& r matches Ok(dt) ==> dt.date == date_of_epoch_day(n) && dt.time == b.1
                &&& r matches Err(e) ==> e == TemporalError::DateOutOfRange
            }),
    {
        let (overflow_day, time) = IsoTime::balance(hour, minute, second, millisecond, microsecond, nanosecond);
        let date = match IsoDate::balance(year, month, day as i64 + overflow_day) {
            Ok(d) => d,
            Err(e) => return Err(e),
        };
        Ok(Self::new_unchecked(date, time))
    }

    /// The date and time `nanos + offset_ns` nanoseconds after the epoch.
    /// Fails when the day of `nanos`, or that of the sum, falls in a year
    /// that `i32` cannot hold.
    pub fn from_epoch_nanos(nanos: i128, offset_ns: i64) -> (r: TemporalResult<Self>)
        requires
            -NS_PER_DAY < offset_ns < NS_PER_DAY,
        ensures
            ({
                let d = NS_PER_DAY as int;
                let total = nanos + offset_ns;
                &&& r is Ok <==> is_representable_epoch_day(nanos as int / d) && is_representable_epoch_day(total / d)
                &&& r matches Ok(dt) ==> dt.date == date_of_epoch_day(total / d) && dt.time == time_from_nanos(total % d)
                &&& !is_representable_epoch_day(nanos as int / d) ==> r == Err::<IsoDateTime, TemporalError>(TemporalError::DateTimeOutOfRange)
                &&& is_representable_epoch_day(nanos as int / d) && !is_representable_epoch_day(total / d) ==> r == Err::<IsoDateTime, TemporalError>(TemporalError::DateOutOfRange)
            }),
    {
        let days = floor_div(nanos, NS_PER_DAY as i128);
        let rest = floor_mod(nanos, NS_PER_DAY as i128);
        proof {
            lemma_representable_bounds();
        }
        if days < MIN_REPRESENTABLE_EPOCH_DAYS as i128 || days > MAX_REPRESENTABLE_EPOCH_DAYS as i128 {
            return Err(TemporalError::DateTimeOutOfRange);
        }
        let date = epoch_days_to_date(days as i64);
        let time = time_of_day(rest);
        proof {
            lemma_time_from_nanos(rest as int);
            let total = nanos + offset_ns;
            let d = NS_PER_DAY as int;
            let k = (rest + offset_ns) / d;
            assert(total == (days + k) * d + (rest + offset_ns) % d);
            assert(total / d == days + k);
            assert(total % d == (rest + offset_ns) % d);
        }
        Self::balance(
            date.year,
            date.month as i32,
            date.day as i32,
            time.hour as i64,
            time.minute as i64,
            time.second as i64,
            time.millisecond as i64,
            time.microsecond as i64,
            time.nanosecond as i64 + offset_ns,
        )
    }

    /// Returns whether this date and time lies within the limits.
    pub fn is_within_limits(&self) -> (r: bool)
        ensures
            r == within_limits(self.date, self.time),
    {
        iso_dt_within_valid_limits(self.date, &self.time)
    }

    /// Adds a date duration and a time duration: the time duration is added
    /// to the time of day, the days it carries join the date duration, and
    /// `calendar` adds that to the date. The result is held to the limits.
    pub fn add_date_duration<C: CalendarProtocol>(
        &self,
        calendar: &C,
        date_duration: &DateDuration,
        norm: NormalizedTimeDuration,
        overflow: Option<ArithmeticOverflow>,
    ) -> (r: TemporalResult<Self>)
        ensures
            ({
                let t = balanced(self.time.nanos_since_midnight() + norm.total());
                let days = date_duration.days + t.0;
                if !(i64::MIN <= days <= i64::MAX) {
                    r == Err::<IsoDateTime, TemporalError>(TemporalError::DurationOutOfRange)
                } else {
                    let dur = DateDuration { days: days as i64, ..*date_duration };
                    match calendar.add_date_spec(self.date, dur, overflow_or_constrain(overflow)) {
                        Ok(d) => if within_limits(d, t.1) {
                            r == Ok::<IsoDateTime, TemporalError>(IsoDateTime { date: d, time: t.1 })
                        } else {
                            r == Err::<IsoDateTime, TemporalError>(TemporalError::DateTimeOutOfRange)
                        },
                        Err(e) => r == Err::<IsoDateTime, TemporalError>(e),
                    }
                }
            }),
    {
        let (carry, time) = self.time.add(norm);
        let days = match date_duration.days.checked_add(carry) {
            Some(d) => d,
            None => return Err(TemporalError::DurationOutOfRange),
        };
        let duration = DateDuration::new(
            date_duration.years,
            date_duration.months,
            date_duration.weeks,
            days,
        );
        let overflow = match overflow {
            Some(o) => o,
            None => ArithmeticOverflow::Constrain,
        };
        let added_date = match calendar.add_date(self.date, &duration, overflow) {
            Ok(d) => d,
            Err(e) => return Err(e),
        };
        if !iso_dt_within_valid_limits(added_date, &time) {
            return Err(TemporalError::DateTimeOutOfRange);
        }
        Ok(Self::new_unchecked(added_date, time))
    }
}

impl Default for IsoTime {
    /// Midnight.
    fn default() -> (r: Self)
        ensures
            r == (IsoTime {
                hour: 0,
                minute: 0,
                second: 0,
                millisecond: 0,
                microsecond: 0,
                nanosecond: 0,
            }),
    {
        IsoTime::midnight()
    }
}

impl Default for IsoDate {
    /// The all-zero record, year 0, month 0, day 0; it names no date.
    fn default() -> (r: Self)
        ensures
            r == (IsoDate { year: 0, month: 0, day: 0 }),
    {
        IsoDate { year: 0, month: 0, day: 0 }
    }
}

impl Default for IsoDateTime {
    /// The default date at midnight.
    fn default() -> (r: Self)
        ensures
            r == (IsoDateTime {
                date: IsoDate { year: 0, month: 0, day: 0 },
                time: IsoTime {
                    hour: 0,
                    minute: 0,
                    second: 0,
                    millisecond: 0,
                    microsecond: 0,
                    nanosecond: 0,
                },
            }),
    {
        IsoDateTime { date: IsoDate::default(), time: IsoTime::default() }
    }
}

} // verus!
