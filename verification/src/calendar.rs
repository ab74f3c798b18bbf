use vstd::prelude::*;

verus! {

// Proleptic Gregorian calendar, days counted from 1970-01-01.

pub open spec fn is_leap(y: int) -> bool {
    y % 4 == 0 && (y % 100 != 0 || y % 400 == 0)
}

pub open spec fn year_len(y: int) -> int {
    if is_leap(y) {
        366
    } else {
        365
    }
}

/// Days in month `m` (1 to 12) of year `y`.
pub open spec fn days_in_month(y: int, m: int) -> int {
    if m == 2 {
        if is_leap(y) {
            29
        } else {
            28
        }
    } else if m == 4 || m == 6 || m == 9 || m == 11 {
        30
    } else {
        31
    }
}

/// Days of year `y` before the first of month `m`.
pub open spec fn days_before_month(y: int, m: int) -> int
    decreases m,
{
    if m <= 1 {
        0
    } else {
        days_before_month(y, m - 1) + days_in_month(y, m - 1)
    }
}

/// Days from 1970-01-01 to the first of January of year `y` (`y >= 1970`).
pub open spec fn days_before_year(y: int) -> int
    decreases y - 1970,
{
    if y <= 1970 {
        0
    } else {
        days_before_year(y - 1) + year_len(y - 1)
    }
}

/// Days from 1970-01-01 to the date `y-m-d`.
pub open spec fn day_number(y: int, m: int, d: int) -> int {
    days_before_year(y) + days_before_month(y, m) + d - 1
}

pub open spec fn valid_date(y: int, m: int, d: int) -> bool {
    1970 <= y && 1 <= m <= 12 && 1 <= d <= days_in_month(y, m)
}

/// Leap years among `1..=x`.
spec fn leaps_through(x: int) -> int {
    x / 4 - x / 100 + x / 400
}

proof fn lemma_step_div(y: int, k: int)
    requires
        k > 0,
    ensures
        y / k - (y - 1) / k == if y % k == 0 {
            1int
        } else {
            0int
        },
{
    vstd::arithmetic::div_mod::lemma_fundamental_div_mod(y, k);
    vstd::arithmetic::div_mod::lemma_fundamental_div_mod(y - 1, k);
    vstd::arithmetic::div_mod::lemma_mod_bound(y, k);
    vstd::arithmetic::div_mod::lemma_mod_bound(y - 1, k);
    if y % k == 0 {
        assert((y - 1) / k == y / k - 1) by (nonlinear_arith)
            requires
                y == k * (y / k) + y % k,
                y - 1 == k * ((y - 1) / k) + (y - 1) % k,
                0 <= (y - 1) % k < k,
                y % k == 0,
                k > 0,
        ;
    } else {
        assert((y - 1) / k == y / k) by (nonlinear_arith)
            requires
                y == k * (y / k) + y % k,
                y - 1 == k * ((y - 1) / k) + (y - 1) % k,
                0 <= (y - 1) % k < k,
                0 < y % k < k,
                k > 0,
        ;
    }
}

proof fn lemma_leaps_step(y: int)
    ensures
        leaps_through(y) - leaps_through(y - 1) == year_len(y) - 365,
{
    lemma_step_div(y, 4);
    lemma_step_div(y, 100);
    lemma_step_div(y, 400);
    assert(y % 400 == 0 ==> y % 100 == 0 && y % 4 == 0);
    assert(y % 100 == 0 ==> y % 4 == 0);
}

proof fn lemma_days_before_year_closed(y: int)
    requires
        y >= 1970,
    ensures
        days_before_year(y) == 365 * (y - 1970) + leaps_through(y - 1) - leaps_through(1969),
    decreases y - 1970,
{
    if y > 1970 {
        lemma_days_before_year_closed(y - 1);
        lemma_leaps_step(y - 1);
    }
}

/// Every 400 years hold 146097 days.
proof fn lemma_days_before_era(q: int)
    requires
        q >= 0,
    ensures
        days_before_year(1970 + 400 * q) == 146097 * q,
{
    lemma_days_before_year_closed(1970 + 400 * q);
    assert((1969 + 400 * q) / 4 == 492 + 100 * q);
    assert((1969 + 400 * q) / 100 == 19 + 4 * q);
    assert((1969 + 400 * q) / 400 == 4 + q);
}

/// The calendar repeats every 400 years, which hold 146097 days (97 of
/// them leap years).
pub proof fn lemma_gregorian_cycle(y: int)
    requires
        y >= 1970,
    ensures
        days_before_year(y + 400) == days_before_year(y) + 146097,
{
    lemma_days_before_year_closed(y);
    lemma_days_before_year_closed(y + 400);
    assert((y + 399) / 4 == (y - 1) / 4 + 100);
    assert((y + 399) / 100 == (y - 1) / 100 + 4);
    assert((y + 399) / 400 == (y - 1) / 400 + 1);
}

proof fn lemma_next_year(y: int)
    requires
        y >= 1970,
    ensures
        days_before_year(y + 1) == days_before_year(y) + year_len(y),
{
}

proof fn lemma_months_fill_year(y: int)
    ensures
        days_before_month(y, 12) + days_in_month(y, 12) == year_len(y),
{
    reveal_with_fuel(days_before_month, 12);
}

proof fn lemma_months_within_year(y: int, m: int)
    requires
        1 <= m <= 12,
    ensures
        0 <= days_before_month(y, m),
        days_before_month(y, m) + days_in_month(y, m) <= year_len(y),
        m < 12 ==> days_before_month(y, m + 1) == days_before_month(y, m) + days_in_month(y, m),
{
    reveal_with_fuel(days_before_month, 13);
}

proof fn lemma_months_increase(y: int, m1: int, m2: int)
    requires
        1 <= m1 < m2 <= 12,
    ensures
        days_before_month(y, m1) + days_in_month(y, m1) <= days_before_month(y, m2),
    decreases m2 - m1,
{
    lemma_months_within_year(y, m2 - 1);
    if m1 < m2 - 1 {
        lemma_months_increase(y, m1, m2 - 1);
    }
}

proof fn lemma_years_increase(y1: int, y2: int)
    requires
        1970 <= y1 < y2,
    ensures
        days_before_year(y1) + year_len(y1) <= days_before_year(y2),
    decreases y2 - y1,
{
    if y1 < y2 - 1 {
        lemma_years_increase(y1, y2 - 1);
    }
}

/// Each day number belongs to one date only: two valid dates with the same
/// day number are the same date.
pub proof fn lemma_day_number_unique(y1: int, m1: int, d1: int, y2: int, m2: int, d2: int)
    requires
        valid_date(y1, m1, d1),
        valid_date(y2, m2, d2),
        day_number(y1, m1, d1) == day_number(y2, m2, d2),
    ensures
        y1 == y2 && m1 == m2 && d1 == d2,
{
    lemma_months_within_year(y1, m1);
    lemma_months_within_year(y2, m2);
    if y1 < y2 {
        lemma_years_increase(y1, y2);
    } else if y2 < y1 {
        lemma_years_increase(y2, y1);
    } else if m1 < m2 {
        lemma_months_increase(y1, m1, m2);
    } else if m2 < m1 {
        lemma_months_increase(y1, m2, m1);
    }
}

fn leap_year(y: u64) -> (r: bool)
    ensures
        r == is_leap(y as int),
{
    y % 4 == 0 && (y % 100 != 0 || y % 400 == 0)
}

fn year_length(y: u64) -> (r: u64)
    ensures
        r == year_len(y as int),
{
    if leap_year(y) {
        366
    } else {
        365
    }
}

fn month_length(y: u64, m: u64) -> (r: u64)
    requires
        1 <= m <= 12,
    ensures
        r == days_in_month(y as int, m as int),
{
    if m == 2 {
        if leap_year(y) {
            29
        } else {
            28
        }
    } else if m == 4 || m == 6 || m == 9 || m == 11 {
        30
    } else {
        31
    }
}

/// The date `(year, month, day)` that lies `days` days after 1970-01-01.
pub fn civil_from_days(days: u64) -> (r: (u64, u64, u64))
    ensures
        valid_date(r.0 as int, r.1 as int, r.2 as int),
        day_number(r.0 as int, r.1 as int, r.2 as int) == days,
{
    let q = days / 146097;
    let mut rest = days % 146097;
    proof {
        lemma_days_before_era(q as int);
        assert(400 * q <= 400 * (u64::MAX / 146097)) by (nonlinear_arith)
            requires
                q == days / 146097,
        ;
    }
    let era_start: u64 = 1970 + 400 * q;
    let mut y: u64 = era_start;
    while rest >= year_length(y)
        invariant
            era_start == 1970 + 400 * q,
            400 * q <= 400 * (u64::MAX / 146097),
            era_start <= y,
            (y - era_start) * 365 + rest < 146097,
            days_before_year(y as int) + rest == days,
        decreases rest,
    {
        let len = year_length(y);
        proof {
            lemma_next_year(y as int);
        }
        rest = rest - len;
        y = y + 1;
    }
    let ghost in_year = rest;
    let mut m: u64 = 1;
    while rest >= month_length(y, m)
        invariant
            1 <= m <= 12,
            days_before_month(y as int, m as int) + rest == in_year,
            rest < year_len(y as int) - days_before_month(y as int, m as int),
        decreases 12 - m,
    {
        proof {
            lemma_months_fill_year(y as int);
        }
        rest = rest - month_length(y, m);
        m = m + 1;
    }
    (y, m, rest + 1)
}

} // verus!
