//! The Gregorian calendar: dates, and the days between them.

use vstd::prelude::*;

verus! {

/// A leap year.
pub open spec fn leap(y: int) -> bool {
    y % 4 == 0 && (y % 100 != 0 || y % 400 == 0)
}

/// The days of a month.
pub open spec fn month_length(y: int, m: int) -> int {
    if m == 2 {
        if leap(y) {
            29
        } else {
            28
        }
    } else if m == 4 || m == 6 || m == 9 || m == 11 {
        30
    } else {
        31
    }
}

/// A date that exists.
pub open spec fn is_date(y: int, m: int, d: int) -> bool {
    1 <= m <= 12 && 1 <= d <= month_length(y, m)
}

/// The days from the start of year 0 to the start of year `y`: 365 for each,
/// and one more for each leap year.
pub open spec fn days_before_year(y: int) -> int {
    365 * y + (y + 3) / 4 - (y + 99) / 100 + (y + 399) / 400
}

/// The days from the start of a year to the start of a month.
pub open spec fn days_before_month(y: int, m: int) -> int
    decreases m,
{
    if m <= 1 {
        0
    } else {
        days_before_month(y, m - 1) + month_length(y, m - 1)
    }
}

/// The days from 1970-01-01 to a date.
pub open spec fn day_number(y: int, m: int, d: int) -> int {
    days_before_year(y) - days_before_year(1970) + days_before_month(y, m) + d - 1
}

/// The days of a year are those of its months, and the next year starts after
/// them.
pub proof fn years_follow_each_other(y: int)
    ensures
        days_before_year(y + 1) == days_before_year(y) + days_before_month(y, 13),
        days_before_month(y, 13) == if leap(y) {
            366int
        } else {
            365int
        },
{
    reveal_with_fuel(days_before_month, 14);
    lemma_leap_days(y);
}

/// The leap years before `y + 1`, one more than before `y` where `y` is one.
proof fn lemma_leap_days(y: int)
    ensures
        (y + 4) / 4 - (y + 100) / 100 + (y + 400) / 400 == (y + 3) / 4 - (y + 99) / 100 + (y + 399)
            / 400 + (if leap(y) {
            1int
        } else {
            0int
        }),
{
}

/// The day after the last of a month is the first of the next.
pub proof fn months_follow_each_other(y: int, m: int)
    requires
        1 <= m < 12,
    ensures
        day_number(y, m + 1, 1) == day_number(y, m, month_length(y, m)) + 1,
{
}

/// The days before a month of a year are fewer than those of the year.
proof fn lemma_within_year(y: int, m: int, d: int)
    requires
        is_date(y, m, d),
    ensures
        0 <= days_before_month(y, m) + d - 1 < days_before_month(y, 13),
{
    reveal_with_fuel(days_before_month, 14);
}

proof fn lemma_years_apart(a: int, b: int)
    requires
        a < b,
    ensures
        days_before_year(a) + days_before_month(a, 13) <= days_before_year(b),
    decreases b - a,
{
    years_follow_each_other(a);
    if a + 1 < b {
        lemma_years_apart(a + 1, b);
        years_follow_each_other(a + 1);
    }
}

/// Two dates that are one day are one date.
pub proof fn dates_are_distinct(y: int, m: int, d: int, y2: int, m2: int, d2: int)
    requires
        is_date(y, m, d),
        is_date(y2, m2, d2),
        day_number(y, m, d) == day_number(y2, m2, d2),
    ensures
        y == y2,
        m == m2,
        d == d2,
{
    lemma_within_year(y, m, d);
    lemma_within_year(y2, m2, d2);
    if y < y2 {
        lemma_years_apart(y, y2);
    }
    if y2 < y {
        lemma_years_apart(y2, y);
    }
    reveal_with_fuel(days_before_month, 13);
}

/// No date before 1970 comes at or after its first day.
pub proof fn lemma_not_before_1970(y: int, m: int, d: int)
    requires
        is_date(y, m, d),
        day_number(y, m, d) >= 0,
    ensures
        y >= 1970,
{
    lemma_within_year(y, m, d);
    if y < 1970 {
        lemma_years_apart(y, 1970);
    }
}

// ---------------------------------------------------------------------------
// From days to dates
// ---------------------------------------------------------------------------

/// The days before a month, in years that start with March.
spec fn march_based(mp: int) -> int {
    (153 * mp + 2) / 5
}

/// The parts of a day of the era: centuries, groups of four years, years, and
/// days of the year.
proof fn lemma_parts(doe: int) -> (r: (int, int, int, int))
    requires
        0 <= doe < 146_097,
    ensures
        ({
            let (n100, n4, n1, doy) = r;
            &&& 0 <= n100 <= 3
            &&& 0 <= n4 <= 24
            &&& 0 <= n1 <= 3
            &&& 0 <= doy <= 365
            &&& doe == 36_524 * n100 + 1461 * n4 + 365 * n1 + doy
            &&& doy == 365 ==> n1 == 3 && (n4 == 24 ==> n100 == 3)
            &&& doe / 36_524 - doe / 146_096 == n100
        }),
{
    let n100: int = if doe / 36_524 > 3 {
        3
    } else {
        doe / 36_524
    };
    let rest = doe - 36_524 * n100;
    let n4 = rest / 1461;
    let last = rest - 1461 * n4;
    let n1: int = if last / 365 > 3 {
        3
    } else {
        last / 365
    };
    (n100, n4, n1, last - 365 * n1)
}

/// The year of the era and the day of the year, from the day of the era.
proof fn lemma_year_of_era(doe: int)
    requires
        0 <= doe < 146_097,
    ensures
        ({
            let yoe = (doe - doe / 1460 + doe / 36_524 - doe / 146_096) / 365;
            let doy = doe - (365 * yoe + yoe / 4 - yoe / 100);
            &&& 0 <= yoe < 400
            &&& 0 <= doy <= 365
            &&& doy == 365 ==> leap(yoe + 1)
        }),
{
    let (n100, n4, n1, doy) = lemma_parts(doe);
    let year = 100 * n100 + 4 * n4 + n1;
    let rest = 24 * n100 + n4 + 365 * n1 + doy;
    assert(doe == 1460 * (25 * n100 + n4) + rest);
    assert(0 <= rest < 2920);
    assert(doe / 1460 == 25 * n100 + n4 + rest / 1460);
    let shifted = doe - doe / 1460 + doe / 36_524 - doe / 146_096;
    assert(shifted == 365 * year + doy + 25 * n100 + n4 - doe / 1460);
    assert(365 * year <= shifted < 365 * year + 365);
    assert(shifted / 365 == year);
    assert(year / 4 == 25 * n100 + n4);
    assert(year / 100 == n100);
}

/// Days before a month of a year that starts with March.
proof fn lemma_months(doy: int)
    requires
        0 <= doy <= 365,
    ensures
        ({
            let mp = (5 * doy + 2) / 153;
            let day = doy - march_based(mp) + 1;
            &&& 0 <= mp <= 11
            &&& 1 <= day <= 31
            &&& (mp == 1 || mp == 3 || mp == 6 || mp == 8) ==> day <= 30
            &&& mp == 11 ==> day <= 29
            &&& mp == 11 && day == 29 ==> doy == 365
        }),
{
}

/// The days before a month, counted from January and from March.
proof fn lemma_month_days(y: int, m: int)
    requires
        1 <= m <= 12,
    ensures
        m >= 3 ==> days_before_month(y, m) == 59 + march_based(m - 3) + (if leap(y) {
            1int
        } else {
            0int
        }),
        m <= 2 ==> days_before_month(y, m) == march_based(m + 9) - 306,
{
    reveal_with_fuel(days_before_month, 13);
}

/// The days before a year, by the era and the year of the era.
proof fn lemma_year_days(era: int, yoe: int)
    requires
        0 <= yoe < 400,
    ensures
        ({
            let year = yoe + era * 400;
            let days = 146_097 * era + 365 * yoe + yoe / 4 - yoe / 100;
            &&& days_before_year(year) + (if leap(year) {
                1int
            } else {
                0int
            }) == days + 1
            &&& days_before_year(year + 1) == days + 366
            &&& leap(year + 1) == leap(yoe + 1)
        }),
{
    lemma_eras_repeat(yoe, era);
    lemma_eras_repeat(yoe + 1, era);
    lemma_leap_days(yoe);
}

/// The calendar repeats itself every 400 years.
proof fn lemma_eras_repeat(y: int, era: int)
    ensures
        days_before_year(y + era * 400) == days_before_year(y) + 146_097 * era,
        leap(y + era * 400) == leap(y),
{
    lemma_multiple_divides(y + 3, 4, 100 * era);
    lemma_multiple_divides(y + 99, 100, 4 * era);
    lemma_multiple_divides(y + 399, 400, era);
    lemma_multiple_divides(y, 4, 100 * era);
    lemma_multiple_divides(y, 100, 4 * era);
    lemma_multiple_divides(y, 400, era);
}

proof fn lemma_multiple_divides(x: int, d: int, k: int)
    requires
        d > 0,
    ensures
        (x + d * k) / d == x / d + k,
        (x + d * k) % d == x % d,
{
    vstd::arithmetic::div_mod::lemma_fundamental_div_mod(x, d);
    assert(d * (x / d + k) == d * (x / d) + d * k) by (nonlinear_arith);
    assert((x / d + k) * d == d * (x / d + k)) by (nonlinear_arith);
    vstd::arithmetic::div_mod::lemma_fundamental_div_mod_converse(
        x + d * k,
        d,
        x / d + k,
        x % d,
    );
}

/// The date that the parts stand for is the day that they were made of.
proof fn lemma_date(era: int, yoe: int, doy: int)
    requires
        0 <= yoe < 400,
        0 <= doy <= 365,
        doy == 365 ==> leap(yoe + 1),
    ensures
        ({
            let year = yoe + era * 400;
            let mp = (5 * doy + 2) / 153;
            let d = doy - march_based(mp) + 1;
            let m = if mp < 10 {
                mp + 3
            } else {
                mp - 9
            };
            let y = if m <= 2 {
                year + 1
            } else {
                year
            };
            &&& is_date(y, m, d)
            &&& day_number(y, m, d) == 146_097 * era + 365 * yoe + yoe / 4 - yoe / 100 + doy
                - 719_468
        }),
{
    let mp = (5 * doy + 2) / 153;
    lemma_months(doy);
    lemma_year_days(era, yoe);
    if mp < 10 {
        lemma_month_days(yoe + era * 400, mp + 3);
    } else {
        lemma_month_days(yoe + era * 400 + 1, mp - 9);
    }
    assert(days_before_year(1970) == 719_528);
}

/// Converts days since 1970-01-01 to a civil date, year, month and day.
pub fn civil_from_days(days: i64) -> (r: (i64, u32, u32))
    requires
        days <= i64::MAX - 719_468,
    ensures
        is_date(r.0 as int, r.1 as int, r.2 as int),
        day_number(r.0 as int, r.1 as int, r.2 as int) == days,
{
    let z: i64 = days + 719_468;
    let (era, doe): (i64, i64) = if z >= 0 {
        (z / 146_097, z % 146_097)
    } else {
        let back: i64 = -(z + 1);
        (-(back / 146_097) - 1, 146_096 - back % 146_097)
    };
    proof {
        lemma_year_of_era(doe as int);
    }
    let yoe: i64 = (doe - doe / 1460 + doe / 36_524 - doe / 146_096) / 365;
    let year: i64 = yoe + era * 400;
    let doy: i64 = doe - (365 * yoe + yoe / 4 - yoe / 100);
    proof {
        lemma_months(doy as int);
        lemma_date(era as int, yoe as int, doy as int);
    }
    let mp: i64 = (5 * doy + 2) / 153;
    let day: i64 = doy - (153 * mp + 2) / 5 + 1;
    let month: i64 = if mp < 10 {
        mp + 3
    } else {
        mp - 9
    };
    if month <= 2 {
        (year + 1, month as u32, day as u32)
    } else {
        (year, month as u32, day as u32)
    }
}

} // verus!
