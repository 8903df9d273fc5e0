use vstd::prelude::*;

verus! {

/// Gregorian leap years.
pub open spec fn is_leap_year(y: int) -> bool {
    y % 4 == 0 && (y % 100 != 0 || y % 400 == 0)
}

pub open spec fn days_in_year(y: int) -> int {
    if is_leap_year(y) {
        366
    } else {
        365
    }
}

pub open spec fn days_in_month(y: int, m: int) -> int {
    if m == 2 {
        if is_leap_year(y) {
            29
        } else {
            28
        }
    } else if m == 4 || m == 6 || m == 9 || m == 11 {
        30
    } else {
        31
    }
}

/// Days from the epoch day 1970-01-01 to the first day of year `y`;
/// negative for years before 1970.
pub open spec fn days_before_year(y: int) -> int
    decreases (if y >= 1970 {
        y - 1970
    } else {
        1970 - y
    }),
{
    if y > 1970 {
        days_before_year(y - 1) + days_in_year(y - 1)
    } else if y < 1970 {
        days_before_year(y + 1) - days_in_year(y)
    } else {
        0
    }
}

/// Days from the first day of year `y` to the first day of its month `m`.
pub open spec fn days_before_month(y: int, m: int) -> int
    decreases m,
{
    if m <= 1 {
        0
    } else {
        days_before_month(y, m - 1) + days_in_month(y, m - 1)
    }
}

/// Day number of the civil date `y-m-d` counted from 1970-01-01.
pub open spec fn civil_day(y: int, m: int, d: int) -> int {
    days_before_year(y) + days_before_month(y, m) + (d - 1)
}

/// The naive instant `y-m-d h:mi:s.f`, as if it were UTC, in epoch
/// milliseconds before any timezone offset is applied.
pub open spec fn naive_ms(y: int, m: int, d: int, h: int, mi: int, s: int, f: int) -> int {
    civil_day(y, m, d) * 86400000 + h * 3600000 + mi * 60000 + s * 1000 + f
}

fn is_leap_exec(y: i64) -> (b: bool)
    requires
        0 <= y,
    ensures
        b == is_leap_year(y as int),
{
    let yu = y as u64;
    yu % 4 == 0 && (yu % 100 != 0 || yu % 400 == 0)
}

fn days_in_year_exec(y: i64) -> (r: i64)
    requires
        0 <= y,
    ensures
        r as int == days_in_year(y as int),
        365 <= r <= 366,
{
    if is_leap_exec(y) {
        366
    } else {
        365
    }
}

/// Days in a month, executable form.
pub fn days_in_month_exec(y: i64, m: u64) -> (r: u64)
    requires
        0 <= y,
        1 <= m <= 12,
    ensures
        r as int == days_in_month(y as int, m as int),
        28 <= r <= 31,
{
    if m == 2 {
        if is_leap_exec(y) {
            29
        } else {
            28
        }
    } else if m == 4 || m == 6 || m == 9 || m == 11 {
        30
    } else {
        31
    }
}

fn days_before_year_exec(y: i64) -> (r: i64)
    requires
        0 <= y <= 9999,
    ensures
        r as int == days_before_year(y as int),
        -800000 <= r <= 3000000,
{
    if y >= 1970 {
        let mut acc: i64 = 0;
        let mut k: i64 = 1970;
        while k < y
            invariant
                1970 <= k <= y <= 9999,
                acc as int == days_before_year(k as int),
                0 <= acc <= 366 * (k - 1970),
            decreases y - k,
        {
            let d = days_in_year_exec(k);
            acc = acc + d;
            k = k + 1;
        }
        acc
    } else {
        let mut acc: i64 = 0;
        let mut k: i64 = 1970;
        while k > y
            invariant
                0 <= y <= k <= 1970,
                acc as int == days_before_year(k as int),
                -366 * (1970 - k) <= acc <= 0,
            decreases k - y,
        {
            let d = days_in_year_exec(k - 1);
            acc = acc - d;
            k = k - 1;
        }
        acc
    }
}

fn days_before_month_exec(y: i64, m: u64) -> (r: i64)
    requires
        0 <= y,
        1 <= m <= 12,
    ensures
        r as int == days_before_month(y as int, m as int),
        0 <= r <= 366,
{
    let mut acc: i64 = 0;
    let mut k: u64 = 1;
    while k < m
        invariant
            1 <= k <= m <= 12,
            0 <= y,
            acc as int == days_before_month(y as int, k as int),
            0 <= acc <= 31 * (k - 1),
        decreases m - k,
    {
        let dm = days_in_month_exec(y, k);
        acc = acc + (dm as i64);
        k = k + 1;
    }
    acc
}

/// Day number of a civil date, executable form.
pub fn civil_day_exec(y: i64, m: u64, d: u64) -> (r: i64)
    requires
        0 <= y <= 9999,
        1 <= m <= 12,
        1 <= d <= 31,
    ensures
        r as int == civil_day(y as int, m as int, d as int),
        -800000 <= r <= 3100000,
{
    let by = days_before_year_exec(y);
    let bm = days_before_month_exec(y, m);
    by + bm + (d as i64) - 1
}

} // verus!
