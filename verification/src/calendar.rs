//! Proleptic Gregorian dates counted in days from 1970-01-01.
use vstd::prelude::*;
use vstd::arithmetic::div_mod::{lemma_fundamental_div_mod, lemma_fundamental_div_mod_converse};

verus! {

/// Leap years: every fourth, except centuries not divisible by 400.
pub open spec fn is_leap(y: int) -> bool {
    (y % 4 == 0 && y % 100 != 0) || y % 400 == 0
}

/// The number of days of month `m` (1 = January) in year `y`.
pub open spec fn month_len(y: int, m: int) -> int {
    if m == 2 {
        if is_leap(y) { 29 } else { 28 }
    } else if m == 4 || m == 6 || m == 9 || m == 11 {
        30
    } else {
        31
    }
}

/// Days in the months of year `y` before month `m`.
pub open spec fn days_before_month(y: int, m: int) -> int
    decreases m,
{
    if m <= 1 {
        0
    } else {
        days_before_month(y, m - 1) + month_len(y, m - 1)
    }
}

/// The count of leap years among 1..=y (for y >= 0; the same formula below).
pub open spec fn leaps_through(y: int) -> int {
    y / 4 - y / 100 + y / 400
}

/// Days from 1970-01-01 to January 1st of year `y`.
pub open spec fn days_before_year(y: int) -> int {
    365 * (y - 1970) + leaps_through(y - 1) - leaps_through(1969)
}

/// Days from 1970-01-01 to the date `y-m-d`.
pub open spec fn days_from_civil(y: int, m: int, d: int) -> int {
    days_before_year(y) + days_before_month(y, m) + d - 1
}

/// `y-m-d` names a day of the calendar.
pub open spec fn valid_date(y: int, m: int, d: int) -> bool {
    &&& 1 <= m <= 12
    &&& 1 <= d <= month_len(y, m)
}

/// The year of an era (a 400-year cycle starting March 1st of year 0) that
/// holds day `doe` of the era, and how that day lies within it.
proof fn lemma_year_of_era(doe: u32)
    by (bit_vector)
    requires
        doe < 146097,
    ensures
        ({
            let yoe = (doe - doe / 1460 + doe / 36524 - doe / 146096) / 365;
            let s = 365 * yoe + yoe / 4 - yoe / 100;
            &&& yoe <= 399
            &&& s <= doe
            &&& doe - s <= 364 + (if yoe % 4 == 3 && (yoe % 100 != 99 || yoe == 399) { 1u32 } else { 0u32 })
        }),
{
}

/// Month and day within a year counted from March 1st.
proof fn lemma_month_of_year(doy: u32)
    by (bit_vector)
    requires
        doy <= 365,
    ensures
        ({
            let mp = (5 * doy + 2) / 153;
            let before = (153 * mp + 2) / 5;
            &&& mp <= 11
            &&& before <= doy
            &&& (mp == 0 ==> before == 0 && doy - before < 31)
            &&& (mp == 1 ==> before == 31 && doy - before < 30)
            &&& (mp == 2 ==> before == 61 && doy - before < 31)
            &&& (mp == 3 ==> before == 92 && doy - before < 30)
            &&& (mp == 4 ==> before == 122 && doy - before < 31)
            &&& (mp == 5 ==> before == 153 && doy - before < 31)
            &&& (mp == 6 ==> before == 184 && doy - before < 30)
            &&& (mp == 7 ==> before == 214 && doy - before < 31)
            &&& (mp == 8 ==> before == 245 && doy - before < 30)
            &&& (mp == 9 ==> before == 275 && doy - before < 31)
            &&& (mp == 10 ==> before == 306 && doy - before < 31)
            &&& (mp == 11 ==> before == 337)
        }),
{
}


/// One more year counts one more leap year exactly when it is a leap year.
proof fn lemma_leaps_step(y: int)
    ensures
        leaps_through(y) == leaps_through(y - 1) + if is_leap(y) { 1int } else { 0int },
{
    lemma_floor_step(y, 4);
    lemma_floor_step(y, 100);
    lemma_floor_step(y, 400);
    lemma_fundamental_div_mod(y, 400);
    lemma_fundamental_div_mod(y, 100);
    lemma_fundamental_div_mod(y, 4);
    if y % 400 == 0 {
        lemma_fundamental_div_mod_converse(y, 100, 4 * (y / 400), 0);
        lemma_fundamental_div_mod_converse(y, 4, 100 * (y / 400), 0);
    } else if y % 100 == 0 {
        lemma_fundamental_div_mod_converse(y, 4, 25 * (y / 100), 0);
    }
}

/// `y / k` exceeds `(y - 1) / k` by one exactly when `k` divides `y`.
proof fn lemma_floor_step(y: int, k: int)
    requires
        k > 0,
    ensures
        y / k == (y - 1) / k + if y % k == 0 { 1int } else { 0int },
{
    lemma_fundamental_div_mod(y - 1, k);
    let a = (y - 1) / k;
    let r = (y - 1) % k;
    if r + 1 == k {
        assert(y == (a + 1) * k + 0) by (nonlinear_arith)
            requires y - 1 == k * a + r, r + 1 == k;
        lemma_fundamental_div_mod_converse(y, k, a + 1, 0);
    } else {
        assert(y == a * k + (r + 1)) by (nonlinear_arith)
            requires y - 1 == k * a + r;
        lemma_fundamental_div_mod_converse(y, k, a, r + 1);
    }
}

/// `(y + k * q) / k == y / k + q`.
proof fn lemma_div_shift(y: int, k: int, q: int)
    requires
        k > 0,
    ensures
        (y + k * q) / k == y / k + q,
{
    lemma_fundamental_div_mod(y, k);
    assert(y + k * q == (y / k + q) * k + y % k) by (nonlinear_arith)
        requires y == k * (y / k) + y % k;
    lemma_fundamental_div_mod_converse(y + k * q, k, y / k + q, y % k);
}

/// A 400-year cycle holds 97 leap years and 146097 days.
proof fn lemma_era_shift(y: int, q: int)
    ensures
        leaps_through(y + 400 * q) == leaps_through(y) + 97 * q,
        days_before_year(y + 400 * q) == days_before_year(y) + 146097 * q,
{
    lemma_div_shift(y, 4, 100 * q);
    lemma_div_shift(y, 100, 4 * q);
    lemma_div_shift(y, 400, q);
    lemma_div_shift(y - 1, 4, 100 * q);
    lemma_div_shift(y - 1, 100, 4 * q);
    lemma_div_shift(y - 1, 400, q);
}

/// The months before `m` in year `y`, counted the March-first way for
/// March to December.
proof fn lemma_months_before(y: int)
    ensures
        days_before_month(y, 1) == 0,
        days_before_month(y, 2) == 31,
        days_before_month(y, 3) == 59 + if is_leap(y) { 1int } else { 0int },
        days_before_month(y, 4) == days_before_month(y, 3) + 31,
        days_before_month(y, 5) == days_before_month(y, 3) + 61,
        days_before_month(y, 6) == days_before_month(y, 3) + 92,
        days_before_month(y, 7) == days_before_month(y, 3) + 122,
        days_before_month(y, 8) == days_before_month(y, 3) + 153,
        days_before_month(y, 9) == days_before_month(y, 3) + 184,
        days_before_month(y, 10) == days_before_month(y, 3) + 214,
        days_before_month(y, 11) == days_before_month(y, 3) + 245,
        days_before_month(y, 12) == days_before_month(y, 3) + 275,
{
    reveal_with_fuel(days_before_month, 13);
}

/// Where year `yoe` of era 0 starts, counted from March 1st of year 0, in the
/// terms of `days_before_year`.
proof fn lemma_year_start(yoe: int)
    requires
        0 <= yoe <= 399,
    ensures
        days_before_year(yoe) + 59 + (if is_leap(yoe) { 1int } else { 0int })
            == 365 * yoe + yoe / 4 - yoe / 100 - 719468,
        days_before_year(yoe + 1) == days_before_year(yoe) + 365 + if is_leap(yoe) { 1int } else { 0int },
{
    lemma_leaps_step(yoe);
    lemma_leaps_step(yoe + 1);
    assert(yoe / 400 == 0);
    assert(leaps_through(1969) == 477);
}

/// How day `doe` of an era lies in its year `yoe`, counted from March 1st.
proof fn lemma_day_of_era(doe: int)
    requires
        0 <= doe < 146097,
    ensures
        ({
            let yoe = (doe - doe / 1460 + doe / 36524 - doe / 146096) / 365;
            let s = 365 * yoe + yoe / 4 - yoe / 100;
            &&& 0 <= yoe <= 399
            &&& s <= doe
            &&& doe - s <= 364 + if is_leap(yoe + 1) { 1int } else { 0int }
        }),
{
    let doe32 = doe as u32;
    lemma_year_of_era(doe32);
    let yoe = (doe - doe / 1460 + doe / 36524 - doe / 146096) / 365;
    assert(yoe == (doe32 - doe32 / 1460 + doe32 / 36524 - doe32 / 146096) / 365);
    let yoe32 = yoe as u32;
    assert(365 * yoe + yoe / 4 - yoe / 100 == 365 * yoe32 + yoe32 / 4 - yoe32 / 100);
    lemma_leap_in_era(yoe);
}

/// Year `yoe + 1` of an era is a leap year exactly when the year `yoe`
/// counted from March 1st is long.
proof fn lemma_leap_in_era(yoe: int)
    requires
        0 <= yoe <= 399,
    ensures
        is_leap(yoe + 1) == (yoe % 4 == 3 && (yoe % 100 != 99 || yoe == 399)),
{
    let y32 = yoe as u32;
    lemma_leap_in_era_bits(y32);
    assert((yoe + 1) % 4 == (y32 + 1) % 4);
    assert((yoe + 1) % 100 == (y32 + 1) % 100);
    assert((yoe + 1) % 400 == (y32 + 1) % 400);
}

proof fn lemma_leap_in_era_bits(yoe: u32)
    by (bit_vector)
    requires
        yoe <= 399,
    ensures
        (((yoe + 1) % 4 == 0 && (yoe + 1) % 100 != 0) || (yoe + 1) % 400 == 0)
            == (yoe % 4 == 3 && (yoe % 100 != 99 || yoe == 399)),
{
}

/// Month and day within a year counted from March 1st, in the terms of
/// `days_before_month` of the calendar year `cy` that holds the day.
proof fn lemma_day_of_year(doy: int, cy: int, long_year: bool)
    requires
        0 <= doy <= 364 + if long_year { 1int } else { 0int },
        long_year == is_leap(cy),
    ensures
        ({
            let mp = (5 * doy + 2) / 153;
            let d = doy - (153 * mp + 2) / 5 + 1;
            let m = if mp < 10 { mp + 3 } else { mp - 9 };
            &&& valid_date(cy, m, d)
            &&& m >= 3 ==> days_before_month(cy, m) + d - 1 == doy + 59
                + if long_year { 1int } else { 0int }
            &&& m <= 2 ==> days_before_month(cy, m) + d - 1 == doy - 306
        }),
{
    let doy32 = doy as u32;
    lemma_month_of_year(doy32);
    let mp = (5 * doy + 2) / 153;
    assert(mp == (5 * doy32 + 2) / 153);
    let mp32 = mp as u32;
    assert((153 * mp + 2) / 5 == (153 * mp32 + 2) / 5);
    lemma_months_before(cy);
}

/// Leap years repeat every 400 years.
proof fn lemma_leap_period(y: int, q: int)
    ensures
        is_leap(y + 400 * q) == is_leap(y),
{
    lemma_fundamental_div_mod(y, 400);
    lemma_fundamental_div_mod_converse(y + 400 * q, 400, y / 400 + q, y % 400);
    lemma_fundamental_div_mod(y, 100);
    lemma_fundamental_div_mod_converse(y + 400 * q, 100, y / 100 + 4 * q, y % 100);
    lemma_fundamental_div_mod(y, 4);
    lemma_fundamental_div_mod_converse(y + 400 * q, 4, y / 4 + 100 * q, y % 4);
}

/// The date `civil_from_days` computes is the day `z - 719468` (Howard
/// Hinnant's decomposition into eras, years of the era from March 1st, and
/// days of that year).
proof fn lemma_civil(z: int, era: int, doe: int, yoe: int, doy: int, mp: int, d: int, m: int, y: int)
    requires
        era == z / 146097,
        doe == z - era * 146097,
        yoe == (doe - doe / 1460 + doe / 36524 - doe / 146096) / 365,
        doy == doe - (365 * yoe + yoe / 4 - yoe / 100),
        mp == (5 * doy + 2) / 153,
        d == doy - (153 * mp + 2) / 5 + 1,
        m == if mp < 10 { mp + 3 } else { mp - 9 },
        y == yoe + era * 400 + if m <= 2 { 1int } else { 0int },
    ensures
        valid_date(y, m, d),
        days_from_civil(y, m, d) == z - 719468,
{
    lemma_fundamental_div_mod(z, 146097);
    lemma_day_of_era(doe);
    let cy = yoe + if m <= 2 { 1int } else { 0int };
    // The calendar year `cy` is long in its February exactly when `yoe + 1` is leap.
    let long_year = is_leap(yoe + 1);
    assert(m <= 2 ==> cy == yoe + 1);
    lemma_day_of_year(doy, yoe + 1, long_year);
    lemma_year_start(yoe);
    lemma_months_before(yoe);
    lemma_months_before(yoe + 1);
    if m >= 3 {
        // March to December lie in calendar year `yoe`; their days before
        // the month do not depend on the leap status past February... except
        // through February itself, which belongs to `yoe`.
        assert(days_before_month(yoe, m) == days_before_month(yoe + 1, m)
            - (if is_leap(yoe + 1) { 1int } else { 0int }) + (if is_leap(yoe) { 1int } else { 0int }));
        assert(valid_date(yoe, m, d));
    }
    assert(valid_date(cy, m, d));
    assert(days_from_civil(cy, m, d) == 146097 * 0 + doe - 719468 + 0);
    lemma_era_shift(cy, era);
    lemma_leap_period(cy, era);
    lemma_months_before(cy);
    lemma_months_before(y);
    assert(y == cy + 400 * era);
    assert(days_before_month(y, m) == days_before_month(cy, m));
}

/// Days since 1970-01-01 to the calendar date `(year, month, day)`
/// (Howard Hinnant's algorithm).
pub fn civil_from_days(days: i64) -> (res: (i64, u32, u32))
    requires
        days <= i64::MAX - 719_468,
    ensures
        valid_date(res.0 as int, res.1 as int, res.2 as int),
        days_from_civil(res.0 as int, res.1 as int, res.2 as int) == days,
        days >= -719_468 ==> res.0 >= 0,
{
    let z: i64 = days + 719_468;
    let era: i64 = if z >= 0 { z } else { z - 146_096 } / 146_097;
    assert(era == z / 146097);
    proof { lemma_fundamental_div_mod(z as int, 146097); }
    let doe: i64 = z - era * 146_097;
    let yoe: i64 = (doe - doe / 1460 + doe / 36_524 - doe / 146_096) / 365;
    proof { lemma_year_of_era(doe as u32); }
    let y: i64 = yoe + era * 400;
    let doy: i64 = doe - (365 * yoe + yoe / 4 - yoe / 100);
    let mp: i64 = (5 * doy + 2) / 153;
    proof { lemma_month_of_year(doy as u32); }
    let d: u32 = (doy - (153 * mp + 2) / 5 + 1) as u32;
    let m: u32 = if mp < 10 { mp + 3 } else { mp - 9 } as u32;
    proof {
        lemma_civil(z as int, era as int, doe as int, yoe as int, doy as int, mp as int,
            d as int, m as int, if m <= 2 { y as int + 1 } else { y as int });
    }
    (if m <= 2 { y + 1 } else { y }, m, d)
}


/// Every valid date of year `y` falls within that year's days.
proof fn lemma_within_year(y: int, m: int, d: int)
    requires
        valid_date(y, m, d),
    ensures
        days_before_year(y) <= days_from_civil(y, m, d) < days_before_year(y + 1),
{
    lemma_leaps_step(y);
    lemma_months_before(y);
}

/// Later years start later.
proof fn lemma_years_ordered(y1: int, y2: int)
    requires
        y1 <= y2,
    ensures
        days_before_year(y1) + 365 * (y2 - y1) <= days_before_year(y2),
    decreases y2 - y1,
{
    if y1 < y2 {
        lemma_years_ordered(y1, y2 - 1);
        lemma_leaps_step(y2 - 1);
    }
}

/// Each day number names at most one date: `days_from_civil` is one-to-one on
/// valid dates, so `civil_from_days` gives *the* date of a day.
pub proof fn lemma_civil_unique(y1: int, m1: int, d1: int, y2: int, m2: int, d2: int)
    requires
        valid_date(y1, m1, d1),
        valid_date(y2, m2, d2),
        days_from_civil(y1, m1, d1) == days_from_civil(y2, m2, d2),
    ensures
        y1 == y2 && m1 == m2 && d1 == d2,
{
    lemma_within_year(y1, m1, d1);
    lemma_within_year(y2, m2, d2);
    if y1 < y2 {
        lemma_years_ordered(y1 + 1, y2);
    } else if y2 < y1 {
        lemma_years_ordered(y2 + 1, y1);
    }
    assert(y1 == y2);
    lemma_months_before(y1);
}


/// A valid date on or after the epoch lies in 1970 or later.
pub proof fn lemma_civil_not_before_epoch(y: int, m: int, d: int)
    requires
        valid_date(y, m, d),
        days_from_civil(y, m, d) >= 0,
    ensures
        y >= 1970,
{
    lemma_within_year(y, m, d);
    if y < 1970 {
        lemma_years_ordered(y + 1, 1970);
        assert(days_before_year(1970) == 0);
    }
}

} // verus!
