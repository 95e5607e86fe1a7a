//! The text form in which instants are stored: RFC 3339 in UTC, to the second.
use vstd::prelude::*;

use crate::calendar::{
    civil_of_day, day_of_timestamp, days_before_month, in_chrono_range, lemma_days_before_month_values,
    lemma_days_before_year_mono, lemma_days_before_year_step, lemma_year_holds_day_unique,
    month_from, month_length, unix_day, year_holds_day, year_of_day, SECONDS_PER_DAY,
};
use crate::text::{digit_char, nat_decimal};

verus! {

/// The decimal digits of `n`, with zeros in front to make at least `w` of them.
pub open spec fn zero_padded(n: nat, w: nat) -> Seq<char> {
    let d = nat_decimal(n);
    if d.len() >= w {
        d
    } else {
        Seq::new((w - d.len()) as nat, |i: int| '0') + d
    }
}

/// The last `w` decimal digits of `n`, with zeros in front when it has fewer.
pub open spec fn fixed_digits(n: nat, w: nat) -> Seq<char>
    decreases w,
{
    if w == 0 {
        seq![]
    } else {
        fixed_digits(n / 10, (w - 1) as nat).push(digit_char(n % 10))
    }
}

/// A year as RFC 3339 writes it: four digits for years 0 to 9999, else a
/// sign and at least four digits.
pub open spec fn year_text(y: int) -> Seq<char> {
    if 0 <= y <= 9999 {
        fixed_digits(y as nat, 4)
    } else if y < 0 {
        seq!['-'] + zero_padded((-y) as nat, 4)
    } else {
        seq!['+'] + zero_padded(y as nat, 4)
    }
}

/// Two decimal digits of `n`.
pub open spec fn two_digits(n: int) -> Seq<char> {
    fixed_digits(n as nat, 2)
}

/// `HH:MM:SSZ` for the second `s` of a day.
pub open spec fn clock_text(s: int) -> Seq<char> {
    two_digits(s / 3600) + (seq![':'] + (two_digits((s % 3600) / 60) + (seq![':'] + (
    two_digits(s % 60) + seq!['Z']))))
}

/// `-DDTHH:MM:SSZ` for day of month `d` and second of the day `s`.
pub open spec fn day_and_clock_text(d: int, s: int) -> Seq<char> {
    seq!['-'] + (two_digits(d) + (seq!['T'] + clock_text(s)))
}

/// `-MM-DDTHH:MM:SSZ` for month `m`, day of month `d` and second of the day `s`.
pub open spec fn date_and_clock_text(m: int, d: int, s: int) -> Seq<char> {
    seq!['-'] + (two_digits(m) + day_and_clock_text(d, s))
}

/// `YYYY-MM-DDTHH:MM:SSZ` for the Unix timestamp `t`.
pub open spec fn sql_timestamp_text(t: int) -> Seq<char> {
    let (y, m, d) = civil_of_day(day_of_timestamp(t));
    year_text(y) + date_and_clock_text(m, d, t % (SECONDS_PER_DAY as int))
}

/// Formats the instant `t` seconds after the Unix epoch with
/// `chrono::DateTime::from_timestamp(t, 0)` and
/// `to_rfc3339_opts(SecondsFormat::Secs, true)`. Trusted: chrono's
/// `write_rfc3339` writes the proleptic Gregorian date and time of day as
/// `sql_timestamp_text` spells it out; within `in_chrono_range` the instant
/// exists, so the fallback is never taken.
#[verifier::external_body]
fn rfc3339_seconds(t: i64) -> (r: String)
    requires
        in_chrono_range(t as int),
    ensures
        r@ == sql_timestamp_text(t as int),
{
    let instant = chrono::DateTime::from_timestamp(t, 0).unwrap_or_default();
    instant.to_rfc3339_opts(chrono::SecondsFormat::Secs, true)
}

/// The stored text of the instant `unix` seconds after the Unix epoch.
pub fn to_sql_timestamp(unix: i64) -> (r: String)
    requires
        in_chrono_range(unix as int),
    ensures
        r@ == sql_timestamp_text(unix as int),
{
    rfc3339_seconds(unix)
}


// ----- Stored timestamps sort as the instants they name -----

/// `a` comes before `b` in dictionary order, at a position both have.
pub open spec fn text_before(a: Seq<char>, b: Seq<char>) -> bool {
    exists|i: int|
        0 <= i < a.len() && i < b.len() && a.subrange(0, i) == b.subrange(0, i) && (a[i] as int)
            < (b[i] as int)
}

/// Ten to the power `w`.
pub open spec fn pow10(w: nat) -> nat
    decreases w,
{
    if w == 0 {
        1
    } else {
        10 * pow10((w - 1) as nat)
    }
}

proof fn lemma_fixed_digits_len(n: nat, w: nat)
    ensures
        fixed_digits(n, w).len() == w,
    decreases w,
{
    if w > 0 {
        lemma_fixed_digits_len(n / 10, (w - 1) as nat);
    }
}

proof fn lemma_before_extend(a: Seq<char>, b: Seq<char>, c: Seq<char>, d: Seq<char>)
    requires
        text_before(a, b),
    ensures
        text_before(a + c, b + d),
{
    let i = choose|i: int|
        0 <= i < a.len() && i < b.len() && a.subrange(0, i) == b.subrange(0, i) && (a[i] as int)
            < (b[i] as int);
    assert((a + c).subrange(0, i) =~= a.subrange(0, i));
    assert((b + d).subrange(0, i) =~= b.subrange(0, i));
    assert((a + c)[i] == a[i]);
    assert((b + d)[i] == b[i]);
}

proof fn lemma_before_after_same(p: Seq<char>, c: Seq<char>, d: Seq<char>)
    requires
        text_before(c, d),
    ensures
        text_before(p + c, p + d),
{
    let i = choose|i: int|
        0 <= i < c.len() && i < d.len() && c.subrange(0, i) == d.subrange(0, i) && (c[i] as int)
            < (d[i] as int);
    let j = p.len() + i;
    assert((p + c).subrange(0, j) =~= p + c.subrange(0, i));
    assert((p + d).subrange(0, j) =~= p + d.subrange(0, i));
    assert((p + c)[j] == c[i]);
    assert((p + d)[j] == d[i]);
}

proof fn lemma_fixed_digits_order(x: nat, y: nat, w: nat)
    requires
        x < y < pow10(w),
    ensures
        text_before(fixed_digits(x, w), fixed_digits(y, w)),
    decreases w,
{
    let w1 = (w - 1) as nat;
    let dx = seq![digit_char(x % 10)];
    let dy = seq![digit_char(y % 10)];
    assert(fixed_digits(x, w) =~= fixed_digits(x / 10, w1) + dx);
    assert(fixed_digits(y, w) =~= fixed_digits(y / 10, w1) + dy);
    if x / 10 < y / 10 {
        assert(y / 10 < pow10(w1)) by (nonlinear_arith)
            requires
                y < 10 * pow10(w1),
        ;
        lemma_fixed_digits_order(x / 10, y / 10, w1);
        lemma_before_extend(fixed_digits(x / 10, w1), fixed_digits(y / 10, w1), dx, dy);
    } else {
        assert(x / 10 == y / 10);
        assert(x % 10 < y % 10);
        assert(dx.subrange(0, 0) =~= dy.subrange(0, 0));
        assert(text_before(dx, dy));
        lemma_before_after_same(fixed_digits(x / 10, w1), dx, dy);
    }
}

proof fn lemma_two_digits_order(x: int, y: int)
    requires
        0 <= x < y < 100,
    ensures
        text_before(two_digits(x), two_digits(y)),
{
    assert(pow10(2) == 100) by {
        reveal_with_fuel(pow10, 3);
    }
    lemma_fixed_digits_order(x as nat, y as nat, 2);
}

proof fn lemma_clock_order(a: int, b: int)
    requires
        0 <= a < b < 86400,
    ensures
        text_before(clock_text(a), clock_text(b)),
{
    let rest_a = seq![':'] + (two_digits((a % 3600) / 60) + (seq![':'] + (two_digits(a % 60)
        + seq!['Z'])));
    let rest_b = seq![':'] + (two_digits((b % 3600) / 60) + (seq![':'] + (two_digits(b % 60)
        + seq!['Z'])));
    if a / 3600 < b / 3600 {
        lemma_two_digits_order(a / 3600, b / 3600);
        lemma_before_extend(two_digits(a / 3600), two_digits(b / 3600), rest_a, rest_b);
    } else {
        let h = two_digits(a / 3600);
        let sa = seq![':'] + (two_digits(a % 60) + seq!['Z']);
        let sb = seq![':'] + (two_digits(b % 60) + seq!['Z']);
        if (a % 3600) / 60 < (b % 3600) / 60 {
            lemma_two_digits_order((a % 3600) / 60, (b % 3600) / 60);
            lemma_before_extend(two_digits((a % 3600) / 60), two_digits((b % 3600) / 60), sa, sb);
        } else {
            assert(a % 60 < b % 60);
            lemma_two_digits_order(a % 60, b % 60);
            lemma_before_extend(two_digits(a % 60), two_digits(b % 60), seq!['Z'], seq!['Z']);
            lemma_before_after_same(
                seq![':'],
                two_digits(a % 60) + seq!['Z'],
                two_digits(b % 60) + seq!['Z'],
            );
            lemma_before_after_same(two_digits((a % 3600) / 60), sa, sb);
        }
        lemma_before_after_same(
            seq![':'],
            two_digits((a % 3600) / 60) + sa,
            two_digits((b % 3600) / 60) + sb,
        );
        lemma_before_after_same(h, rest_a, rest_b);
    }
}


proof fn lemma_day_and_clock_order(da: int, sa: int, db: int, sb: int)
    requires
        1 <= da < 100,
        1 <= db < 100,
        0 <= sa < 86400,
        0 <= sb < 86400,
        da < db || (da == db && sa < sb),
    ensures
        text_before(day_and_clock_text(da, sa), day_and_clock_text(db, sb)),
{
    let ta = seq!['T'] + clock_text(sa);
    let tb = seq!['T'] + clock_text(sb);
    if da < db {
        lemma_two_digits_order(da, db);
        lemma_before_extend(two_digits(da), two_digits(db), ta, tb);
    } else {
        lemma_clock_order(sa, sb);
        lemma_before_after_same(seq!['T'], clock_text(sa), clock_text(sb));
        lemma_before_after_same(two_digits(da), ta, tb);
    }
    lemma_before_after_same(seq!['-'], two_digits(da) + ta, two_digits(db) + tb);
}

proof fn lemma_date_and_clock_order(ma: int, da: int, sa: int, mb: int, db: int, sb: int)
    requires
        1 <= ma < 100,
        1 <= mb < 100,
        1 <= da < 100,
        1 <= db < 100,
        0 <= sa < 86400,
        0 <= sb < 86400,
        ma < mb || (ma == mb && (da < db || (da == db && sa < sb))),
    ensures
        text_before(date_and_clock_text(ma, da, sa), date_and_clock_text(mb, db, sb)),
{
    if ma < mb {
        lemma_two_digits_order(ma, mb);
        lemma_before_extend(
            two_digits(ma),
            two_digits(mb),
            day_and_clock_text(da, sa),
            day_and_clock_text(db, sb),
        );
    } else {
        lemma_day_and_clock_order(da, sa, db, sb);
        lemma_before_after_same(two_digits(ma), day_and_clock_text(da, sa), day_and_clock_text(db, sb));
    }
    lemma_before_after_same(
        seq!['-'],
        two_digits(ma) + day_and_clock_text(da, sa),
        two_digits(mb) + day_and_clock_text(db, sb),
    );
}

/// Some year holds day `n`, and it is no earlier than `y`.
proof fn lemma_year_found(y: int, n: int)
    requires
        unix_day(y, 1, 1) <= n,
    ensures
        year_holds_day(year_of_day(n), n),
        y <= year_of_day(n),
    decreases n - unix_day(y, 1, 1),
{
    if n < unix_day(y + 1, 1, 1) {
        lemma_year_holds_day_unique(y, n);
    } else {
        lemma_days_before_year_step(y);
        lemma_year_found(y + 1, n);
    }
}

proof fn lemma_days_before_month_mono(y: int, a: int, b: int)
    requires
        1 <= a <= b,
    ensures
        days_before_month(y, a) <= days_before_month(y, b),
    decreases b - a,
{
    if a < b {
        lemma_days_before_month_mono(y, a, b - 1);
    }
}

proof fn lemma_month_found(y: int, doy: int, m: int)
    requires
        1 <= m <= 12,
        days_before_month(y, m) <= doy < days_before_month(y, 13),
    ensures
        m <= month_from(y, doy, m) <= 12,
        days_before_month(y, month_from(y, doy, m)) <= doy < days_before_month(
            y,
            month_from(y, doy, m) + 1,
        ),
    decreases 12 - m,
{
    if m < 12 && doy >= days_before_month(y, m + 1) {
        lemma_month_found(y, doy, m + 1);
    }
}

/// The calendar date of day `n` in a year from 0 to 9999: the year, and a
/// month and day of month in range, placed where the day falls.
proof fn lemma_civil_fields(n: int)
    requires
        unix_day(0, 1, 1) <= n < unix_day(10000, 1, 1),
    ensures
        ({
            let (y, m, d) = civil_of_day(n);
            let doy = n - unix_day(y, 1, 1);
            &&& year_holds_day(y, n)
            &&& 0 <= y <= 9999
            &&& 1 <= m <= 12
            &&& days_before_month(y, m) <= doy < days_before_month(y, m + 1)
            &&& d == doy - days_before_month(y, m) + 1
            &&& 1 <= d <= 31
        }),
{
    lemma_year_found(0, n);
    let y = year_of_day(n);
    if y > 9999 {
        lemma_days_before_year_mono(10000, y);
        assert(false);
    }
    lemma_days_before_year_step(y);
    lemma_days_before_month_values(y);
    let doy = n - unix_day(y, 1, 1);
    lemma_month_found(y, doy, 1);
    let m = month_from(y, doy, 1);
    assert(days_before_month(y, m + 1) == days_before_month(y, m) + month_length(y, m));
}

/// An instant in the years 0 to 9999, whose stored text has a four-digit year.
pub open spec fn four_digit_year_instant(t: int) -> bool {
    unix_day(0, 1, 1) * SECONDS_PER_DAY <= t < unix_day(10000, 1, 1) * SECONDS_PER_DAY
}

/// In the years 0 to 9999, stored timestamps sort as text in the order of
/// the instants they name: an earlier instant has the smaller text.
pub proof fn sql_timestamps_sort_as_instants(a: int, b: int)
    requires
        four_digit_year_instant(a),
        four_digit_year_instant(b),
        a < b,
    ensures
        text_before(sql_timestamp_text(a), sql_timestamp_text(b)),
{
    let na = day_of_timestamp(a);
    let nb = day_of_timestamp(b);
    let sa = a % (SECONDS_PER_DAY as int);
    let sb = b % (SECONDS_PER_DAY as int);
    assert(unix_day(0, 1, 1) <= na < unix_day(10000, 1, 1));
    assert(unix_day(0, 1, 1) <= nb < unix_day(10000, 1, 1));
    assert(na <= nb);
    assert(na == nb ==> sa < sb);
    lemma_civil_fields(na);
    lemma_civil_fields(nb);
    let (ya, ma, da) = civil_of_day(na);
    let (yb, mb, db) = civil_of_day(nb);
    if ya > yb {
        lemma_days_before_year_mono(yb + 1, ya);
        assert(false);
    }
    if ya < yb {
        assert(pow10(4) == 10000) by {
            reveal_with_fuel(pow10, 5);
        }
        lemma_fixed_digits_order(ya as nat, yb as nat, 4);
        lemma_before_extend(
            year_text(ya),
            year_text(yb),
            date_and_clock_text(ma, da, sa),
            date_and_clock_text(mb, db, sb),
        );
    } else {
        if ma > mb {
            lemma_days_before_month_mono(ya, mb + 1, ma);
            assert(false);
        }
        lemma_date_and_clock_order(ma, da, sa, mb, db, sb);
        lemma_before_after_same(
            year_text(ya),
            date_and_clock_text(ma, da, sa),
            date_and_clock_text(mb, db, sb),
        );
    }
}

} // verus!
