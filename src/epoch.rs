//! Proleptic Gregorian calendar arithmetic: a bijection between calendar
//! fields and a signed count of days since 1970-01-01.
use vstd::prelude::*;

verus! {

/// Days since the epoch of the first day of year `i32::MIN`.
pub const MIN_REPRESENTABLE_EPOCH_DAYS: i64 = -784_353_015_833;

/// Days since the epoch of the last day of year `i32::MAX`.
pub const MAX_REPRESENTABLE_EPOCH_DAYS: i64 = 784_351_576_776;

pub open spec fn is_leap_year(y: int) -> bool {
    (y % 4 == 0 && y % 100 != 0) || y % 400 == 0
}

pub open spec fn days_in_year(y: int) -> int {
    if is_leap_year(y) {
        366
    } else {
        365
    }
}

/// Number of days in month `m` (1-based) of year `y`.
pub open spec fn days_in_month(y: int, m: int) -> int {
    if m == 2 {
        if is_leap_year(y) {
            29
        } else {
            28
        }
    } else if m == 4 || m == 6 || m == 9 || m == 11 {
        30
    } else {
        31
    }
}

/// Leap years strictly before year `y`, counted from year 0.
pub open spec fn leap_days_before(y: int) -> int {
    (y - 1) / 4 - (y - 1) / 100 + (y - 1) / 400
}

/// Epoch day of January 1st of year `y`.
#[verifier::opaque]
pub open spec fn days_before_year(y: int) -> int {
    365 * (y - 1970) + leap_days_before(y) - leap_days_before(1970)
}

/// Days of year `y` that come before the first day of month `m` (1..=12).
pub open spec fn days_before_month(y: int, m: int) -> int {
    let base: int = if m <= 1 {
        0
    } else if m == 2 {
        31
    } else if m == 3 {
        59
    } else if m == 4 {
        90
    } else if m == 5 {
        120
    } else if m == 6 {
        151
    } else if m == 7 {
        181
    } else if m == 8 {
        212
    } else if m == 9 {
        243
    } else if m == 10 {
        273
    } else if m == 11 {
        304
    } else {
        334
    };
    if m > 2 && is_leap_year(y) {
        base + 1
    } else {
        base
    }
}

/// Epoch day of the calendar date `y`-`m`-`d`, with `m` in 1..=12; `d` may lie
/// outside its month, counting on linearly.
pub open spec fn epoch_days(y: int, m: int, d: int) -> int {
    days_before_year(y) + days_before_month(y, m) + d - 1
}

/// `m` names a month and `d` a day of that month in year `y`.
pub open spec fn is_valid_ymd(y: int, m: int, d: int) -> bool {
    1 <= m <= 12 && 1 <= d <= days_in_month(y, m)
}

/// Epoch day of year `y`, zero-based month `m0` and day `d`, where `m0` may be
/// any integer: whole multiples of twelve carry into the year.
pub open spec fn epoch_days_from_month_offset(y: int, m0: int, d: int) -> int {
    epoch_days(y + m0 / 12, m0 % 12 + 1, d)
}

/// The epoch day lies in a year that `i32` can hold.
pub open spec fn is_representable_epoch_day(n: int) -> bool {
    days_before_year(i32::MIN as int) <= n < days_before_year(i32::MAX as int + 1)
}

/// The representable epoch days end where the two constants say.
pub proof fn lemma_representable_bounds()
    ensures
        days_before_year(i32::MIN as int) == MIN_REPRESENTABLE_EPOCH_DAYS,
        days_before_year(i32::MAX as int + 1) == MAX_REPRESENTABLE_EPOCH_DAYS + 1,
{
    reveal(days_before_year);
}

/// Days before a year grow about linearly with the year.
pub proof fn lemma_days_before_year_bound(y: int, bound: int)
    requires
        0 <= bound,
        -bound <= y <= bound,
    ensures
        -366 * bound - 720_000 <= days_before_year(y) <= 366 * bound,
{
    reveal(days_before_year);
}

/// Each year starts its own length after the one before.
pub proof fn lemma_year_step(y: int)
    ensures
        days_before_year(y + 1) == days_before_year(y) + days_in_year(y),
{
    reveal(days_before_year);
    assert(y / 4 - (y - 1) / 4 == if y % 4 == 0 { 1int } else { 0int });
    assert(y / 100 - (y - 1) / 100 == if y % 100 == 0 { 1int } else { 0int });
    assert(y / 400 - (y - 1) / 400 == if y % 400 == 0 { 1int } else { 0int });
}

/// Years grow by at least 365 and at most 366 days each.
pub proof fn lemma_year_monotone(a: int, b: int)
    requires
        a <= b,
    ensures
        365 * (b - a) <= days_before_year(b) - days_before_year(a) <= 366 * (b - a),
    decreases b - a,
{
    if a < b {
        lemma_year_monotone(a, b - 1);
        lemma_year_step(b - 1);
    }
}

/// Each month starts its own length after the one before, and December
/// ends the year.
pub proof fn lemma_month_step(y: int, m: int)
    requires
        1 <= m <= 12,
    ensures
        m < 12 ==> days_before_month(y, m + 1) == days_before_month(y, m) + days_in_month(y, m),
        m == 12 ==> days_before_month(y, m) + days_in_month(y, m) == days_in_year(y),
        0 <= days_before_month(y, m),
{
}

/// Later months start later, and every month ends within its year.
pub proof fn lemma_month_monotone(y: int, a: int, b: int)
    requires
        1 <= a <= b <= 12,
    ensures
        days_before_month(y, a) + (if a < b { days_in_month(y, a) } else { 0 }) <= days_before_month(y, b),
        days_before_month(y, b) + days_in_month(y, b) <= days_in_year(y),
{
}

/// A valid date falls within its own year.
pub proof fn lemma_valid_within_year(y: int, m: int, d: int)
    requires
        is_valid_ymd(y, m, d),
    ensures
        days_before_year(y) <= epoch_days(y, m, d) < days_before_year(y + 1),
{
    lemma_month_monotone(y, m, 12);
    lemma_year_step(y);
}

/// Epoch days order valid dates as their fields do, lexicographically.
pub proof fn lemma_epoch_days_strict(y1: int, m1: int, d1: int, y2: int, m2: int, d2: int)
    requires
        is_valid_ymd(y1, m1, d1),
        is_valid_ymd(y2, m2, d2),
        y1 < y2 || (y1 == y2 && m1 < m2) || (y1 == y2 && m1 == m2 && d1 < d2),
    ensures
        epoch_days(y1, m1, d1) < epoch_days(y2, m2, d2),
{
    lemma_valid_within_year(y1, m1, d1);
    lemma_valid_within_year(y2, m2, d2);
    if y1 < y2 {
        lemma_year_monotone(y1 + 1, y2);
    } else if m1 < m2 {
        lemma_month_monotone(y1, m1, m2);
    }
}

/// Two valid dates with the same epoch day are the same date.
pub proof fn lemma_epoch_days_injective(y1: int, m1: int, d1: int, y2: int, m2: int, d2: int)
    requires
        is_valid_ymd(y1, m1, d1),
        is_valid_ymd(y2, m2, d2),
        epoch_days(y1, m1, d1) == epoch_days(y2, m2, d2),
    ensures
        y1 == y2 && m1 == m2 && d1 == d2,
{
    if y1 < y2 || (y1 == y2 && m1 < m2) || (y1 == y2 && m1 == m2 && d1 < d2) {
        lemma_epoch_days_strict(y1, m1, d1, y2, m2, d2);
    } else if y2 < y1 || (y1 == y2 && m2 < m1) || (y1 == y2 && m1 == m2 && d2 < d1) {
        lemma_epoch_days_strict(y2, m2, d2, y1, m1, d1);
    }
}

/// Floor division by a positive divisor.
pub fn floor_div(a: i128, b: i128) -> (q: i128)
    requires
        b > 0,
    ensures
        q == a / b,
{
    proof {
        if a >= 0 {
            assert(0 <= a / b <= a) by (nonlinear_arith)
                requires b > 0, a >= 0;
        } else {
            assert(a <= a / b < 0) by (nonlinear_arith)
                requires b > 0, a < 0;
        }
    }
    match a.checked_div_euclid(b) {
        Some(q) => q,
        None => 0,
    }
}

/// Euclidean remainder by a positive divisor.
pub fn floor_mod(a: i128, b: i128) -> (r: i128)
    requires
        b > 0,
    ensures
        r == a % b,
        0 <= r < b,
{
    match a.checked_rem_euclid(b) {
        Some(r) => r,
        None => 0,
    }
}

/// Returns whether `year` is a leap year.
pub fn iso_is_leap_year(year: i128) -> (r: bool)
    ensures
        r == is_leap_year(year as int),
{
    let y = year;
    (floor_mod(y, 4) == 0 && floor_mod(y, 100) != 0) || floor_mod(y, 400) == 0
}

/// Returns the number of days in `month` of `year`.
pub fn iso_days_in_month(year: i128, month: i128) -> (r: u8)
    ensures
        r == days_in_month(year as int, month as int),
{
    if month == 2 {
        if iso_is_leap_year(year) {
            29
        } else {
            28
        }
    } else if month == 4 || month == 6 || month == 9 || month == 11 {
        30
    } else {
        31
    }
}

fn days_before_year_exec(year: i64) -> (r: i128)
    requires
        -0x200_0000_0000 <= year <= 0x200_0000_0000,
    ensures
        r == days_before_year(year as int),
{
    proof {
        reveal(days_before_year);
    }
    let y = year as i128;
    let leaps = floor_div(y - 1, 4) - floor_div(y - 1, 100) + floor_div(y - 1, 400);
    365 * (y - 1970) + leaps - 477
}

fn days_before_month_exec(year: i64, month: i64) -> (r: i128)
    requires
        1 <= month <= 12,
    ensures
        r == days_before_month(year as int, month as int),
{
    let base: i128 = if month <= 1 {
        0
    } else if month == 2 {
        31
    } else if month == 3 {
        59
    } else if month == 4 {
        90
    } else if month == 5 {
        120
    } else if month == 6 {
        151
    } else if month == 7 {
        181
    } else if month == 8 {
        212
    } else if month == 9 {
        243
    } else if month == 10 {
        273
    } else if month == 11 {
        304
    } else {
        334
    };
    if month > 2 && iso_is_leap_year(year as i128) {
        base + 1
    } else {
        base
    }
}

/// Epoch days of year `year`, month `month` (1..=12) and day `day`, where
/// the day may lie outside its month.
pub fn epoch_days_of(year: i64, month: i64, day: i64) -> (r: i128)
    requires
        -0x100_0000_0000 <= year <= 0x100_0000_0000,
        1 <= month <= 12,
    ensures
        r == epoch_days(year as int, month as int, day as int),
{
    proof {
        lemma_days_before_year_bound(year as int, 0x100_0000_0000);
        lemma_month_step(year as int, month as int);
    }
    days_before_year_exec(year) + days_before_month_exec(year, month) + day as i128 - 1
}

/// Epoch days of a date given as year, zero-based month and day, where the
/// month and day may lie outside their ranges.
pub fn iso_date_to_epoch_days(year: i32, month: i32, day: i32) -> (r: i64)
    ensures
        r == epoch_days_from_month_offset(year as int, month as int, day as int),
{
    let resolved_year = year as i128 + floor_div(month as i128, 12);
    let resolved_month = floor_mod(month as i128, 12) + 1;
    proof {
        lemma_days_before_year_bound(resolved_year as int, 0x100_0000_0000);
        lemma_month_step(resolved_year as int, resolved_month as int);
    }
    let days = days_before_year_exec(resolved_year as i64)
        + days_before_month_exec(resolved_year as i64, resolved_month as i64)
        + day as i128 - 1;
    days as i64
}

/// Year, month and day of an epoch day.
pub fn ymd_from_epoch_days(days: i64) -> (r: (i32, u8, u8))
    requires
        is_representable_epoch_day(days as int),
    ensures
        is_valid_ymd(r.0 as int, r.1 as int, r.2 as int),
        epoch_days(r.0 as int, r.1 as int, r.2 as int) == days as int,
{
    proof {
        lemma_representable_bounds();
    }
    let n = days as i128;
    let estimate = floor_div(n * 400, 146097) + 1970;
    let mut y: i64 = estimate as i64;
    while days_before_year_exec(y) > n
        invariant
            -0x100_0000_0000 <= y <= 0x100_0000_0000,
            n == days as int,
            is_representable_epoch_day(n as int),
        decreases y + 0x100_0000_0000,
    {
        proof {
            if y <= i32::MIN {
                lemma_year_monotone(y as int, i32::MIN as int);
            }
        }
        y = y - 1;
    }
    while days_before_year_exec(y + 1) <= n
        invariant
            -0x100_0000_0000 <= y <= 0x100_0000_0000,
            n == days as int,
            is_representable_epoch_day(n as int),
            days_before_year(y as int) <= n,
        decreases 0x100_0000_0000 - y,
    {
        proof {
            if y + 1 >= i32::MAX + 1 {
                lemma_year_monotone(i32::MAX + 1, y + 1);
            }
        }
        y = y + 1;
    }
    proof {
        if y < i32::MIN {
            lemma_year_monotone(y + 1, i32::MIN as int);
        }
        if y > i32::MAX {
            lemma_year_monotone(i32::MAX + 1, y as int);
        }
        lemma_year_step(y as int);
    }
    let rest = n - days_before_year_exec(y);
    let mut m: i64 = 1;
    while m < 12 && days_before_month_exec(y, m + 1) <= rest
        invariant
            1 <= m <= 12,
            0 <= rest < days_in_year(y as int),
            days_before_month(y as int, m as int) <= rest,
        decreases 12 - m,
    {
        m = m + 1;
    }
    proof {
        lemma_month_step(y as int, m as int);
    }
    let d = rest - days_before_month_exec(y, m) + 1;
    (y as i32, m as u8, d as u8)
}

} // verus!
