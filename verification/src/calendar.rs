//! Proleptic Gregorian calendar arithmetic on Unix time, over the range of
//! instants that `chrono::DateTime<Utc>` can hold.
use vstd::prelude::*;

verus! {

/// Earliest year `chrono` represents.
pub const MIN_YEAR: i32 = -262143;

/// Latest year `chrono` represents.
pub const MAX_YEAR: i32 = 262142;

/// Unix day number of `MIN_YEAR`-01-01.
pub const MIN_UNIX_DAY: i64 = -96465292;

/// Unix day number of `MAX_YEAR`-12-31.
pub const MAX_UNIX_DAY: i64 = 95026236;

/// First second of `MIN_YEAR`-01-01, as a Unix timestamp.
pub const MIN_TIMESTAMP: i64 = -8334601228800;

/// Last second of `MAX_YEAR`-12-31, as a Unix timestamp.
pub const MAX_TIMESTAMP: i64 = 8210266876799;

pub const SECONDS_PER_DAY: i64 = 86400;

/// Days from 0000-01-01 to 1970-01-01.
pub const UNIX_EPOCH_DAY_NUMBER: i64 = 719528;

/// A calendar date.
#[derive(Clone, Copy, Debug, PartialEq, Eq)]
pub struct CivilDate {
    pub year: i32,
    pub month: u32,
    pub day: u32,
}

pub open spec fn is_leap(y: int) -> bool {
    y % 4 == 0 && (y % 100 != 0 || y % 400 == 0)
}

pub open spec fn month_length(y: int, m: int) -> int {
    if m == 2 {
        if is_leap(y) { 29 } else { 28 }
    } else if m == 4 || m == 6 || m == 9 || m == 11 {
        30
    } else {
        31
    }
}

/// Days from 0000-01-01 to `y`-01-01 (negative before year 0).
pub open spec fn days_before_year(y: int) -> int {
    365 * y + (y + 3) / 4 - (y + 99) / 100 + (y + 399) / 400
}

/// Days from `y`-01-01 to the first day of month `m`.
pub open spec fn days_before_month(y: int, m: int) -> int
    decreases m,
{
    if m <= 1 {
        0
    } else {
        days_before_month(y, m - 1) + month_length(y, m - 1)
    }
}

/// The Unix day number (days since 1970-01-01) of a date.
pub open spec fn unix_day(y: int, m: int, d: int) -> int {
    days_before_year(y) + days_before_month(y, m) + d - 1 - UNIX_EPOCH_DAY_NUMBER
}

/// The day of the week of a Unix day, counted from Sunday (0) to Saturday (6).
pub open spec fn weekday_of_day(n: int) -> int {
    (n + 4) % 7
}

pub open spec fn valid_date(y: int, m: int, d: int) -> bool {
    MIN_YEAR <= y <= MAX_YEAR && 1 <= m <= 12 && 1 <= d <= month_length(y, m)
}

/// The day of the month of the last Sunday of month `m` of year `y`.
pub open spec fn last_sunday_day(y: int, m: int) -> int {
    let last = month_length(y, m);
    last - weekday_of_day(unix_day(y, m, last))
}

/// `y` is the year in which Unix day `n` falls.
pub open spec fn year_holds_day(y: int, n: int) -> bool {
    unix_day(y, 1, 1) <= n < unix_day(y + 1, 1, 1)
}

/// The year in which Unix day `n` falls.
pub open spec fn year_of_day(n: int) -> int {
    choose|y: int| year_holds_day(y, n)
}

/// The month holding day `doy` (counted from 0) of year `y`, looking from month `m` on.
pub open spec fn month_from(y: int, doy: int, m: int) -> int
    decreases 12 - m,
{
    if m >= 12 || doy < days_before_month(y, m + 1) {
        m
    } else {
        month_from(y, doy, m + 1)
    }
}

/// The calendar date (year, month, day of month) of Unix day `n`.
pub open spec fn civil_of_day(n: int) -> (int, int, int) {
    let y = year_of_day(n);
    let doy = n - unix_day(y, 1, 1);
    let m = month_from(y, doy, 1);
    (y, m, doy - days_before_month(y, m) + 1)
}

/// The Unix day in which timestamp `t` falls.
pub open spec fn day_of_timestamp(t: int) -> int {
    t / SECONDS_PER_DAY as int
}

/// A Unix timestamp that `chrono::DateTime<Utc>` can hold.
pub open spec fn in_chrono_range(t: int) -> bool {
    MIN_TIMESTAMP <= t <= MAX_TIMESTAMP
}

proof fn lemma_ceil4_step(y: int)
    ensures
        (y + 4) / 4 - (y + 3) / 4 == if y % 4 == 0 { 1int } else { 0int },
{
}

proof fn lemma_ceil100_step(y: int)
    ensures
        (y + 100) / 100 - (y + 99) / 100 == if y % 100 == 0 { 1int } else { 0int },
{
}

proof fn lemma_ceil400_step(y: int)
    ensures
        (y + 400) / 400 - (y + 399) / 400 == if y % 400 == 0 { 1int } else { 0int },
{
}

proof fn lemma_leap_divisibility(y: int)
    ensures
        y % 400 == 0 ==> y % 100 == 0,
        y % 100 == 0 ==> y % 4 == 0,
{
}

pub(crate) proof fn lemma_days_before_year_step(y: int)
    ensures
        days_before_year(y + 1) - days_before_year(y) == if is_leap(y) { 366int } else { 365int },
{
    lemma_ceil4_step(y);
    lemma_ceil100_step(y);
    lemma_ceil400_step(y);
    lemma_leap_divisibility(y);
}

pub(crate) proof fn lemma_days_before_year_mono(a: int, b: int)
    requires
        a <= b,
    ensures
        days_before_year(b) - days_before_year(a) >= 365 * (b - a),
    decreases b - a,
{
    if a < b {
        lemma_days_before_year_mono(a, b - 1);
        lemma_days_before_year_step(b - 1);
    }
}

proof fn lemma_days_before_year_shift(y: int, k: int)
    requires
        k >= 0,
    ensures
        days_before_year(y + 400 * k) == days_before_year(y) + 146097 * k,
{
    assert((y + 400 * k + 3) / 4 == (y + 3) / 4 + 100 * k);
    assert((y + 400 * k + 99) / 100 == (y + 99) / 100 + 4 * k);
    assert((y + 400 * k + 399) / 400 == (y + 399) / 400 + k);
}

pub(crate) proof fn lemma_days_before_month_values(y: int)
    ensures
        days_before_month(y, 1) == 0,
        days_before_month(y, 2) == 31,
        days_before_month(y, 3) == 59 + if is_leap(y) { 1int } else { 0int },
        days_before_month(y, 4) == 90 + if is_leap(y) { 1int } else { 0int },
        days_before_month(y, 5) == 120 + if is_leap(y) { 1int } else { 0int },
        days_before_month(y, 6) == 151 + if is_leap(y) { 1int } else { 0int },
        days_before_month(y, 7) == 181 + if is_leap(y) { 1int } else { 0int },
        days_before_month(y, 8) == 212 + if is_leap(y) { 1int } else { 0int },
        days_before_month(y, 9) == 243 + if is_leap(y) { 1int } else { 0int },
        days_before_month(y, 10) == 273 + if is_leap(y) { 1int } else { 0int },
        days_before_month(y, 11) == 304 + if is_leap(y) { 1int } else { 0int },
        days_before_month(y, 12) == 334 + if is_leap(y) { 1int } else { 0int },
        days_before_month(y, 13) == 365 + if is_leap(y) { 1int } else { 0int },
{
    assert(days_before_month(y, 1) == 0);
    assert(days_before_month(y, 2) == 31);
    assert(days_before_month(y, 3) == 59 + if is_leap(y) { 1int } else { 0int });
    assert(days_before_month(y, 4) == 90 + if is_leap(y) { 1int } else { 0int });
    assert(days_before_month(y, 5) == 120 + if is_leap(y) { 1int } else { 0int });
    assert(days_before_month(y, 6) == 151 + if is_leap(y) { 1int } else { 0int });
    assert(days_before_month(y, 7) == 181 + if is_leap(y) { 1int } else { 0int });
    assert(days_before_month(y, 8) == 212 + if is_leap(y) { 1int } else { 0int });
    assert(days_before_month(y, 9) == 243 + if is_leap(y) { 1int } else { 0int });
    assert(days_before_month(y, 10) == 273 + if is_leap(y) { 1int } else { 0int });
    assert(days_before_month(y, 11) == 304 + if is_leap(y) { 1int } else { 0int });
    assert(days_before_month(y, 12) == 334 + if is_leap(y) { 1int } else { 0int });
    assert(days_before_month(y, 13) == 365 + if is_leap(y) { 1int } else { 0int });
}

/// Whether `year` is a leap year of the Gregorian calendar.
pub fn is_leap_year(year: i32) -> (r: bool)
    ensures
        r == is_leap(year as int),
{
    year % 4 == 0 && (year % 100 != 0 || year % 400 == 0)
}

/// The number of days in `month` of `year`.
pub fn days_in_month(year: i32, month: u32) -> (r: u32)
    ensures
        r == month_length(year as int, month as int),
{
    if month == 2 {
        if is_leap_year(year) {
            29
        } else {
            28
        }
    } else if month == 4 || month == 6 || month == 9 || month == 11 {
        30
    } else {
        31
    }
}

/// Days from 0000-01-01 to `year`-01-01 for a year shifted to be non-negative.
fn days_before_shifted_year(y: i64) -> (r: i64)
    requires
        0 <= y <= 10_000_000,
    ensures
        r == days_before_year(y as int),
        365 * y <= r <= 366 * y + 1,
{
    365 * y + (y + 3) / 4 - (y + 99) / 100 + (y + 399) / 400
}

/// Days from the first of January to the first day of `month`.
fn days_before_month_exec(year: i32, month: u32) -> (r: i64)
    requires
        1 <= month <= 12,
    ensures
        r == days_before_month(year as int, month as int),
        0 <= r <= 335,
{
    proof {
        lemma_days_before_month_values(year as int);
    }
    let leap: i64 = if month > 2 && is_leap_year(year) {
        1
    } else {
        0
    };
    let base: i64 = if month == 1 {
        0
    } else if month == 2 {
        31
    } else if month == 3 {
        59
    } else if month == 4 {
        90
    } else if month == 5 {
        120
    } else if month == 6 {
        151
    } else if month == 7 {
        181
    } else if month == 8 {
        212
    } else if month == 9 {
        243
    } else if month == 10 {
        273
    } else if month == 11 {
        304
    } else {
        334
    };
    base + leap
}

/// The Unix day number of a date.
pub fn unix_day_of(date: CivilDate) -> (r: i64)
    requires
        MIN_YEAR <= date.year <= MAX_YEAR + 1,
        1 <= date.month <= 12,
        1 <= date.day <= 31,
    ensures
        r == unix_day(date.year as int, date.month as int, date.day as int),
        -100_000_000 <= r <= 100_000_000,
{
    let shifted: i64 = date.year as i64 + 400000;
    proof {
        lemma_days_before_year_shift(date.year as int, 1000);
    }
    let before_year = days_before_shifted_year(shifted) - 146097000;
    let before_month = days_before_month_exec(date.year, date.month);
    let day = date.day as i64;
    before_year + before_month + day - 1 - UNIX_EPOCH_DAY_NUMBER
}

/// The day of the week of `date`, counted from Sunday (0).
pub fn weekday_from_sunday(date: CivilDate) -> (r: u32)
    requires
        MIN_YEAR <= date.year <= MAX_YEAR,
        1 <= date.month <= 12,
        1 <= date.day <= 31,
    ensures
        r == weekday_of_day(unix_day(date.year as int, date.month as int, date.day as int)),
        r < 7,
{
    let n = unix_day_of(date);
    let shifted = n + 4 + 7 * 15_000_000;
    proof {
        vstd::arithmetic::div_mod::lemma_mod_multiples_vanish(15_000_000, n + 4, 7);
    }
    let positive = shifted as u64;
    (positive % 7) as u32
}

/// The last Sunday of `month` in `year`.
pub fn last_sunday_of_month(year: i32, month: u32) -> (r: CivilDate)
    requires
        MIN_YEAR <= year <= MAX_YEAR,
        1 <= month <= 12,
    ensures
        r.year == year,
        r.month == month,
        r.day == last_sunday_day(year as int, month as int),
        valid_date(r.year as int, r.month as int, r.day as int),
        weekday_of_day(unix_day(year as int, month as int, r.day as int)) == 0,
        forall|d: int|
            r.day < d <= month_length(year as int, month as int) ==> weekday_of_day(
                #[trigger] unix_day(year as int, month as int, d),
            ) != 0,
{
    let last = days_in_month(year, month);
    let w = weekday_from_sunday(CivilDate { year, month, day: last });
    let day = last - w;
    proof {
        let x = unix_day(year as int, month as int, last as int);
        assert(unix_day(year as int, month as int, day as int) == x - w);
        assert forall|d: int|
            day < d <= month_length(year as int, month as int) implies weekday_of_day(
                #[trigger] unix_day(year as int, month as int, d),
            ) != 0 by {
            assert(unix_day(year as int, month as int, d) == x - (last - d));
        }
    }
    CivilDate { year, month, day }
}

/// The year in which Unix day `n` falls.
pub fn year_of_unix_day(n: i64) -> (r: i32)
    requires
        MIN_UNIX_DAY <= n <= MAX_UNIX_DAY,
    ensures
        year_holds_day(r as int, n as int),
        MIN_YEAR <= r <= MAX_YEAR,
        r as int == year_of_day(n as int),
{
    // Shift by 400000 years (1000 full 400-year cycles) so that all values are non-negative.
    let z: i64 = n + UNIX_EPOCH_DAY_NUMBER + 146097000;
    let q: i64 = z / 146097;
    let mut y: i64 = 400 * q;
    proof {
        lemma_days_before_year_shift(0, q as int);
        assert(days_before_year(0) == 0);
        assert(days_before_year(y as int) == 146097 * q);
    }
    let mut start = days_before_shifted_year(y);
    while days_before_shifted_year(y + 1) <= z
        invariant
            0 <= z <= 300_000_000,
            0 <= y <= 2_000_000,
            start == days_before_year(y as int),
            start <= z,
        decreases z - start,
    {
        proof {
            lemma_days_before_year_step(y as int);
            lemma_days_before_year_mono(0, y as int + 1);
        }
        y = y + 1;
        start = days_before_shifted_year(y);
    }
    proof {
        lemma_days_before_year_shift(y as int - 400000, 1000);
        lemma_days_before_year_shift(y as int + 1 - 400000, 1000);
    }
    let year = y - 400000;
    proof {
        let yr = year as int;
        assert(year_holds_day(yr, n as int));
        if yr < MIN_YEAR {
            lemma_days_before_year_mono(yr + 1, MIN_YEAR as int);
            assert(false);
        }
        if yr > MAX_YEAR {
            lemma_days_before_year_mono(MAX_YEAR as int + 1, yr);
            assert(false);
        }
        lemma_year_holds_day_unique(yr, n as int);
    }
    year as i32
}

pub(crate) proof fn lemma_year_holds_day_unique(y: int, n: int)
    requires
        year_holds_day(y, n),
    ensures
        year_of_day(n) == y,
{
    let w = year_of_day(n);
    assert(year_holds_day(w, n));
    if w < y {
        lemma_days_before_year_mono(w + 1, y);
    } else if w > y {
        lemma_days_before_year_mono(y + 1, w);
    }
}

/// The Unix day in which timestamp `t` falls (rounding towards the past).
pub fn day_of_unix_timestamp(t: i64) -> (r: i64)
    requires
        in_chrono_range(t as int),
    ensures
        r == day_of_timestamp(t as int),
        MIN_UNIX_DAY <= r <= MAX_UNIX_DAY,
{
    // 86400 * 10^8 exceeds |MIN_TIMESTAMP|, so the shifted value is non-negative.
    let shifted = t + 8_640_000_000_000;
    let r = shifted / SECONDS_PER_DAY - 100_000_000;
    assert(r == t / 86400);
    r
}

} // verus!
