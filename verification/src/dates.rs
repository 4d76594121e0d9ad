//! Calendar dates, in UTC.

use vstd::prelude::*;

use crate::text::{decimal, digits_value, padded, padded_text, padding_keeps_the_number};

verus! {

pub const DAY_MS: i64 = 86_400_000;

/// The day that a unix-ms timestamp falls on, counted from 1970-01-01 in UTC.
pub open spec fn day_of(ms: int) -> int {
    ms / 86_400_000
}

/// Leap years of the Gregorian calendar.
pub open spec fn is_leap(y: int) -> bool {
    y % 4 == 0 && (y % 100 != 0 || y % 400 == 0)
}

/// Days from the start of a year to the start of a month, in a common year.
pub open spec fn days_before_month(m: int) -> int {
    if m == 1 {
        0
    } else if m == 2 {
        31
    } else if m == 3 {
        59
    } else if m == 4 {
        90
    } else if m == 5 {
        120
    } else if m == 6 {
        151
    } else if m == 7 {
        181
    } else if m == 8 {
        212
    } else if m == 9 {
        243
    } else if m == 10 {
        273
    } else if m == 11 {
        304
    } else if m == 12 {
        334
    } else {
        365
    }
}

pub open spec fn leap_day(y: int, m: int) -> int {
    if m > 2 && is_leap(y) {
        1
    } else {
        0
    }
}

/// Days in a month.
pub open spec fn days_in_month(y: int, m: int) -> int {
    days_before_month(m + 1) + leap_day(y, m + 1) - days_before_month(m) - leap_day(y, m)
}

/// Days from the start of year 1 to the start of year `y`.
pub open spec fn days_before_year(y: int) -> int {
    365 * (y - 1) + (y - 1) / 4 - (y - 1) / 100 + (y - 1) / 400
}

/// A date of the Gregorian calendar, carried on in both directions.
pub open spec fn is_date(y: int, m: int, d: int) -> bool {
    1 <= m <= 12 && 1 <= d <= days_in_month(y, m)
}

/// Days from 1970-01-01 to a date.
pub open spec fn day_number(y: int, m: int, d: int) -> int {
    days_before_year(y) + days_before_month(m) + leap_day(y, m) + d - 1 - 719_162
}

/// The date that a day has.
pub open spec fn civil(day: int) -> (int, int, int) {
    choose|y: int, m: int, d: int| #[trigger] is_date(y, m, d) && day_number(y, m, d) == day
}

/// A year in four digits at least, its sign among them.
pub open spec fn year_text(y: int) -> Seq<char> {
    if y < 0 {
        seq!['-'] + padded((-y) as nat, 3)
    } else {
        padded(y as nat, 4)
    }
}

/// `YYYY-MM-DD`.
pub open spec fn date_text(date: (int, int, int)) -> Seq<char> {
    year_text(date.0) + "-"@ + padded(date.1 as nat, 2) + "-"@ + padded(date.2 as nat, 2)
}

/// The UTC date of a timestamp.
pub open spec fn utc_date_text(ms: int) -> Seq<char> {
    date_text(civil(day_of(ms)))
}

/// A quotient grows by one at the multiples of the divisor.
proof fn quotient_step(y: int, k: int)
    requires
        k == 4 || k == 100 || k == 400,
    ensures
        y / k - (y - 1) / k == if y % k == 0 {
            1int
        } else {
            0
        },
{
}

/// A leap year is a day longer.
proof fn year_length(y: int)
    ensures
        days_before_year(y + 1) == days_before_year(y) + 365 + if is_leap(y) {
            1int
        } else {
            0
        },
{
    quotient_step(y, 4);
    quotient_step(y, 100);
    quotient_step(y, 400);
    assert(y % 100 == 0 ==> y % 4 == 0);
    assert(y % 400 == 0 ==> y % 100 == 0);
}

proof fn years_grow(a: int, b: int)
    requires
        a <= b,
    ensures
        days_before_year(b) >= days_before_year(a) + 365 * (b - a),
    decreases b - a,
{
    if a < b {
        years_grow(a, b - 1);
        year_length(b - 1);
    }
}

proof fn date_is_within_its_year(y: int, m: int, d: int)
    requires
        is_date(y, m, d),
    ensures
        days_before_year(y) <= day_number(y, m, d) + 719_162 < days_before_year(y + 1),
{
    year_length(y);
}

/// Different dates are different days, so a day has one date.
pub proof fn dates_are_distinct(y: int, m: int, d: int, y2: int, m2: int, d2: int)
    requires
        is_date(y, m, d),
        is_date(y2, m2, d2),
        day_number(y, m, d) == day_number(y2, m2, d2),
    ensures
        y == y2,
        m == m2,
        d == d2,
{
    date_is_within_its_year(y, m, d);
    date_is_within_its_year(y2, m2, d2);
    if y < y2 {
        years_grow(y + 1, y2);
    }
    if y2 < y {
        years_grow(y2 + 1, y);
    }
}

proof fn civil_is(y: int, m: int, d: int)
    requires
        is_date(y, m, d),
    ensures
        civil(day_number(y, m, d)) == (y, m, d),
{
    let day = day_number(y, m, d);
    let (y2, m2, d2) = civil(day);
    assert(is_date(y2, m2, d2) && day_number(y2, m2, d2) == day);
    dates_are_distinct(y, m, d, y2, m2, d2);
}

/// Days from 0000-03-01 to the start of the year that begins with March of `y`.
spec fn march_days(y: int) -> int {
    365 * y + y / 4 - y / 100 + y / 400
}

/// A year that begins with March, against one that begins with January.
proof fn march_year(y: int)
    ensures
        march_days(y) - 306 == days_before_year(y) + 59 + (if is_leap(y) {
            1int
        } else {
            0
        }),
        march_days(y) == days_before_year(y + 1),
{
    year_length(y);
}

/// The year of an era of 400 years that a day of it falls in.
proof fn year_of_era(era: int, c: int, q: int, a: int)
    requires
        0 <= c <= 3,
        0 <= q <= 24,
        0 <= a <= 3,
    ensures
        march_days(400 * era + 100 * c + 4 * q + a) == 146_097 * era + 36_524 * c + 1461 * q + 365
            * a,
{
    let y = 400 * era + 100 * c + 4 * q + a;
    assert(y / 4 == 100 * era + 25 * c + q);
    assert(y / 100 == 4 * era + c);
    assert(y / 400 == era);
}

/// Month and day of month, from the day of a year that begins with March.
proof fn month_of_march_year(doy: int)
    requires
        0 <= doy <= 365,
    ensures
        ({
            let mp = (5 * doy + 2) / 153;
            let d = doy - (153 * mp + 2) / 5 + 1;
            let m = if mp < 10 {
                mp + 3
            } else {
                mp - 9
            };
            &&& 0 <= mp <= 11
            &&& 1 <= d <= 31
            &&& m > 2 ==> days_before_month(m) + d - 1 == doy + 59
            &&& m > 2 ==> d <= days_before_month(m + 1) - days_before_month(m)
            &&& m <= 2 ==> days_before_month(m) + d - 1 == doy - 306
            &&& m == 1 ==> d <= 31
            &&& m == 2 ==> d <= 29
            &&& m == 2 && doy < 365 ==> d <= 28
        }),
{
    let mp = (5 * doy + 2) / 153;
    assert(0 <= mp <= 11);
    if mp == 0 {
    } else if mp == 1 {
    } else if mp == 2 {
    } else if mp == 3 {
    } else if mp == 4 {
    } else if mp == 5 {
    } else if mp == 6 {
    } else if mp == 7 {
    } else if mp == 8 {
    } else if mp == 9 {
    } else if mp == 10 {
    } else {
    }
}

/// The last day of a year that begins with March is the 29th of February.
proof fn last_day_is_a_leap_day(era: int, c: int, q: int)
    requires
        0 <= c <= 3,
        0 <= q <= 24,
        q == 24 ==> c == 3,
    ensures
        is_leap(400 * era + 100 * c + 4 * q + 3 + 1),
{
    let y = 400 * era + 100 * c + 4 * q + 4;
    assert(y == 4 * (100 * era + 25 * c + q + 1));
    assert(y % 4 == 0);
    if q == 24 {
        assert(y == 400 * (era + 1));
        assert(y % 400 == 0);
    } else {
        assert(y == 100 * (4 * era + c) + 4 * (q + 1));
        assert(y % 100 == 4 * (q + 1));
    }
}

/// A day of a year that begins with March, as a date.
proof fn date_of_march_year(y: int, doy: int)
    requires
        0 <= doy <= 365,
        doy == 365 ==> is_leap(y + 1),
    ensures
        ({
            let mp = (5 * doy + 2) / 153;
            let d = doy - (153 * mp + 2) / 5 + 1;
            let m = if mp < 10 {
                mp + 3
            } else {
                mp - 9
            };
            let year = if m <= 2 {
                y + 1
            } else {
                y
            };
            is_date(year, m, d) && day_number(year, m, d) == march_days(y) + doy - 719_468
        }),
{
    month_of_march_year(doy);
    march_year(y);
}

/// The date of a day, by eras of 400 years that begin on the first of March.
fn civil_from_days(days: i64) -> (r: (i64, u64, u64))
    requires
        -200_000_000_000 <= days <= 200_000_000_000,
    ensures
        is_date(r.0 as int, r.1 as int, r.2 as int),
        day_number(r.0 as int, r.1 as int, r.2 as int) == days,
        -1_000_000_000 <= r.0 <= 1_000_000_000,
{
    let z: i64 = days + 719_468;
    let era: i64 = if z >= 0 {
        z / 146_097
    } else {
        -((146_096 - z) / 146_097)
    };
    let doe: i64 = z - era * 146_097;
    assert(0 <= doe < 146_097);
    let c: i64 = if doe / 36_524 > 3 {
        3
    } else {
        doe / 36_524
    };
    let r1: i64 = doe - 36_524 * c;
    assert(0 <= r1 <= 36_524);
    assert(c < 3 ==> r1 < 36_524);
    let q: i64 = r1 / 1461;
    let r2: i64 = r1 - 1461 * q;
    assert(0 <= q <= 24 && 0 <= r2 <= 1460);
    let a: i64 = if r2 / 365 > 3 {
        3
    } else {
        r2 / 365
    };
    let doy: i64 = r2 - 365 * a;
    assert(0 <= doy <= 365);
    let y: i64 = 400 * era + 100 * c + 4 * q + a;
    proof {
        year_of_era(era as int, c as int, q as int, a as int);
        if doy == 365 {
            last_day_is_a_leap_day(era as int, c as int, q as int);
        }
        date_of_march_year(y as int, doy as int);
        month_of_march_year(doy as int);
    }
    let mp: i64 = (5 * doy + 2) / 153;
    let d: i64 = doy - (153 * mp + 2) / 5 + 1;
    let m: i64 = if mp < 10 {
        mp + 3
    } else {
        mp - 9
    };
    let year: i64 = if m <= 2 {
        y + 1
    } else {
        y
    };
    (year, m as u64, d as u64)
}

/// The day that a timestamp falls on.
pub fn day(ms: i64) -> (r: i64)
    ensures
        r == day_of(ms as int),
        -200_000_000_000 <= r <= 200_000_000_000,
{
    if ms >= 0 {
        ms / DAY_MS
    } else {
        -1 - (-(ms + 1)) / DAY_MS
    }
}

/// `YYYY-MM-DD` for a unix-ms timestamp, in UTC.
///
/// The counter only needs a stable day boundary, not calendar correctness in
/// every timezone.
pub fn utc_date(ms: i64) -> (r: String)
    ensures
        r@ == utc_date_text(ms as int),
{
    let (y, m, d) = civil_from_days(day(ms));
    proof {
        civil_is(y as int, m as int, d as int);
    }
    let year = if y < 0 {
        "-".to_string().concat(padded_text((-y) as u64, 3).as_str())
    } else {
        padded_text(y as u64, 4)
    };
    proof {
        reveal_strlit("-");
        assert("-"@ =~= seq!['-']);
    }
    year.concat("-").concat(padded_text(m, 2).as_str()).concat("-").concat(
        padded_text(d, 2).as_str(),
    )
}

/// A day is twenty-four hours, and the next one begins when they are over.
pub proof fn days_are_of_twenty_four_hours(ms: int)
    ensures
        86_400_000 * day_of(ms) <= ms < 86_400_000 * day_of(ms) + 86_400_000,
        day_of(ms + 86_400_000) == day_of(ms) + 1,
        day_of(ms - 86_400_000) == day_of(ms) - 1,
{
}

/// Days are counted from the first of January 1970, and each date is one day after
/// the date before it, over the ends of months and years too. February has a
/// twenty-ninth in leap years.
pub proof fn the_calendar_goes_on(y: int, m: int, d: int)
    requires
        is_date(y, m, d),
    ensures
        day_number(1970, 1, 1) == 0,
        is_date(y, m, d + 1) ==> day_number(y, m, d + 1) == day_number(y, m, d) + 1,
        !is_date(y, m, d + 1) && m < 12 ==> is_date(y, m + 1, 1) && day_number(y, m + 1, 1)
            == day_number(y, m, d) + 1,
        !is_date(y, m, d + 1) && m == 12 ==> is_date(y + 1, 1, 1) && day_number(y + 1, 1, 1)
            == day_number(y, m, d) + 1,
        m != 2 ==> 30 <= days_in_month(y, m) <= 31,
        m == 4 || m == 6 || m == 9 || m == 11 <==> days_in_month(y, m) == 30,
        days_in_month(y, 2) == if y % 400 == 0 || (y % 4 == 0 && y % 100 != 0) {
            29int
        } else {
            28
        },
{
    year_length(y);
}

/// The text of a date is its year in four digits, its month and its day in two, with
/// dashes between them.
pub proof fn date_texts_hold_the_date(y: int, m: int, d: int)
    requires
        0 <= y <= 9999,
        is_date(y, m, d),
    ensures
        ({
            let t = date_text((y, m, d));
            &&& t.len() == 10
            &&& digits_value(t.subrange(0, 4)) == y
            &&& t[4] == '-'
            &&& digits_value(t.subrange(5, 7)) == m
            &&& t[7] == '-'
            &&& digits_value(t.subrange(8, 10)) == d
        }),
{
    reveal_strlit("-");
    few_digits(y as nat);
    few_digits(m as nat);
    few_digits(d as nat);
    padding_keeps_the_number(y as nat, 4);
    padding_keeps_the_number(m as nat, 2);
    padding_keeps_the_number(d as nat, 2);
    let (a, b, c) = (padded(y as nat, 4), padded(m as nat, 2), padded(d as nat, 2));
    assert(d <= 31);
    assert(a.len() == 4 && b.len() == 2 && c.len() == 2);
    let t = date_text((y, m, d));
    assert(t.subrange(0, 4) =~= a);
    assert(t.subrange(5, 7) =~= b);
    assert(t.subrange(8, 10) =~= c);
}

proof fn few_digits(n: nat)
    requires
        n <= 9999,
    ensures
        decimal(n).len() <= 4,
        n < 100 ==> decimal(n).len() <= 2,
{
    reveal_with_fuel(decimal, 5);
}

/// Two times have the same date text exactly when they fall on the same day.
pub proof fn same_date_same_day(
    a: int,
    b: int,
    x: (int, int, int),
    y: (int, int, int),
)
    requires
        0 <= x.0 <= 9999,
        0 <= y.0 <= 9999,
        is_date(x.0, x.1, x.2),
        is_date(y.0, y.1, y.2),
        day_of(a) == day_number(x.0, x.1, x.2),
        day_of(b) == day_number(y.0, y.1, y.2),
    ensures
        utc_date_text(a) == date_text(x),
        utc_date_text(b) == date_text(y),
        utc_date_text(a) == utc_date_text(b) <==> day_of(a) == day_of(b),
{
    civil_is(x.0, x.1, x.2);
    civil_is(y.0, y.1, y.2);
    date_texts_hold_the_date(x.0, x.1, x.2);
    date_texts_hold_the_date(y.0, y.1, y.2);
}

}
