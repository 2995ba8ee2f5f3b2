//! Julian Day Numbers from and to dates of the two calendars.

use vstd::prelude::*;

use crate::arith::{lemma_trunc_floor, tdiv, trem};
use crate::calendar::{gregorian_month_len, persian_days_before};
use crate::leap::{gregorian_leap, is_persian_leap, persian_leap};

verus! {

/// Julian Day Number of 1970-01-01, the Unix epoch.
pub const UNIX_EPOCH_JDN: i64 = 2440588;

/// Last Julian Day Number that is read as a date of the Julian calendar.
pub const REFORM_JDN: i64 = 2299160;

/// Bound on the magnitude of the day numbers that the conversions accept.
pub open spec fn jdn_in_range(jdn: int) -> bool {
    -1_000_000_000_000 <= jdn <= 1_000_000_000_000
}

/// Julian Day Number of the Persian date `year`, `month` (1 to 12), `day`,
/// by the 2820-year grand-cycle formula, with floored quotient and
/// remainder for years before the cycle's base.
pub open spec fn persian_jdn(year: int, month: int, day: int) -> int {
    let base = if year >= 0 { year - 474 } else { year - 473 };
    let epy = 474 + base % 2820;
    let md = if month <= 7 { (month - 1) * 31 } else { (month - 1) * 30 + 6 };
    day + md + (epy * 682 - 110) / 2816 + (epy - 1) * 365 + (base / 2820) * 1029983 + 1948320
}

/// True iff the Gregorian date lies on or after the reform of 1582-10-15.
pub open spec fn after_reform(year: int, month: int, day: int) -> bool {
    year > 1582 || (year == 1582 && month > 10) || (year == 1582 && month == 10 && day > 14)
}

/// Julian Day Number of `year`, `month` (1 to 12), `day`: read in the
/// Gregorian calendar from the reform on, in the Julian calendar before.
pub open spec fn gregorian_jdn(year: int, month: int, day: int) -> int {
    if after_reform(year, month, day) {
        let c = tdiv(month - 14, 12);
        tdiv(1461 * (year + 4800 + c), 4) + tdiv(367 * (month - 2 - 12 * c), 12) - tdiv(
            3 * tdiv(year + 4900 + c, 100),
            4,
        ) + day - 32075
    } else {
        367 * year - tdiv(7 * (year + 5001 + tdiv(month - 9, 7)), 4) + tdiv(275 * month, 9) + day
            + 1729777
    }
}

/// The date (year, month 1 to 12, day) of a Julian Day Number: in the
/// Gregorian calendar after `REFORM_JDN`, in the Julian calendar up to it.
pub open spec fn jdn_gregorian(jdn: int) -> (int, int, int) {
    if jdn > REFORM_JDN {
        let l0 = jdn + 68569;
        let n = (4 * l0) / 146097;
        let l1 = l0 - (146097 * n + 3) / 4;
        let i = (4000 * (l1 + 1)) / 1461001;
        let l2 = l1 - (1461 * i) / 4 + 31;
        let j = (80 * l2) / 2447;
        let d = l2 - (2447 * j) / 80;
        let l3 = j / 11;
        (100 * (n - 49) + i + l3, j + 2 - 12 * l3, d)
    } else {
        let j0 = jdn + 1402;
        let k = (j0 - 1) / 1461;
        let l = j0 - 1461 * k;
        let n = (l - 1) / 365 - l / 1461;
        let i0 = l - 365 * n + 30;
        let j = (80 * i0) / 2447;
        let d = i0 - (2447 * j) / 80;
        let i1 = j / 11;
        (4 * k + n + i1 - 4716, j + 2 - 12 * i1, d)
    }
}

/// The Persian year that holds a Julian Day Number, found from its place
/// in the 2820-year grand cycle.
pub open spec fn jdn_persian_year(jdn: int) -> int {
    let dep = jdn - persian_jdn(475, 1, 1);
    let cyc = dep / 1029983;
    let rem = dep % 1029983;
    let ycyc = if rem == 1029982 {
        2820
    } else {
        let a = rem / 366;
        (2134 * a + 2816 * (rem % 366) + 2815) / 1028522 + a + 1
    };
    let year = ycyc + 2820 * cyc + 474;
    if year <= 0 {
        year - 1
    } else {
        year
    }
}

/// `a / b` rounded up, for `b > 0`.
pub open spec fn ceil_div(a: int, b: int) -> int {
    -((-a) / b)
}

/// The Persian month (0 to 11) of a Julian Day Number, from its day of the
/// year: 31-day months up to day 186, 30-day months after.
pub open spec fn jdn_persian_month(jdn: int) -> int {
    let dy = jdn - persian_jdn(jdn_persian_year(jdn), 1, 1) + 1;
    if dy <= 186 {
        ceil_div(dy, 31) - 1
    } else {
        ceil_div(dy - 6, 30) - 1
    }
}

/// The Persian day of the month of a Julian Day Number.
pub open spec fn jdn_persian_day(jdn: int) -> int {
    jdn - persian_jdn(jdn_persian_year(jdn), jdn_persian_month(jdn) + 1, 1) + 1
}

/// Days in the Persian year `year` under the leap rule.
pub open spec fn persian_year_len(year: int) -> int {
    if persian_leap(year) {
        366
    } else {
        365
    }
}

/// Days in the Persian years from `from` up to, not including, `to`.
pub open spec fn days_in_years(from: int, to: int) -> int
    decreases to - from,
{
    if to <= from {
        0
    } else {
        days_in_years(from, to - 1) + persian_year_len(to - 1)
    }
}

/// Persian year of the Unix epoch, 1970-01-01.
pub const UNIX_EPOCH_PERSIAN_YEAR: i32 = 1348;

/// Day of the Persian year (from 0) of the Unix epoch.
pub const UNIX_EPOCH_PERSIAN_YDAY: i32 = 286;

/// Days from the Unix epoch to the day `yday` (from 0) of the Persian
/// `year`, counting the years by the leap rule.
pub open spec fn days_since_unix_epoch(year: int, yday: int) -> int {
    if year >= 1348 {
        days_in_years(1348, year) + yday - 286
    } else {
        yday - 286 - days_in_years(year, 1348)
    }
}

/// `a / b` rounded toward negative infinity.
pub fn floor_div(a: i64, b: i64) -> (r: i64)
    requires
        b > 0,
        a > i64::MIN,
    ensures
        r == a / b,
{
    let q = a / b;
    let m = a % b;
    proof {
        lemma_trunc_floor(a as int, b as int);
        assert(q == tdiv(a as int, b as int));
        assert(m == trem(a as int, b as int));
    }
    if m < 0 {
        q - 1
    } else {
        q
    }
}

/// Julian Day Number of a Persian date; `month` counts from 1.
pub fn persian_to_jdn(year: i64, month: i64, day: i64) -> (r: i64)
    requires
        -10_000_000_000 <= year <= 10_000_000_000,
        -10_000_000_000 <= month <= 10_000_000_000,
        -10_000_000_000 <= day <= 10_000_000_000,
    ensures
        r == persian_jdn(year as int, month as int, day as int),
{
    let base = if year >= 0 {
        year - 474
    } else {
        year - 473
    };
    let cycles = floor_div(base, 2820);
    let epy = 474 + (base - 2820 * cycles);
    proof {
        vstd::arithmetic::div_mod::lemma_fundamental_div_mod(base as int, 2820);
    }
    let md = if month <= 7 {
        (month - 1) * 31
    } else {
        (month - 1) * 30 + 6
    };
    day + md + (epy * 682 - 110) / 2816 + (epy - 1) * 365 + cycles * 1029983 + 1948320
}

/// Julian Day Number of a date written in the Gregorian calendar from the
/// reform on and in the Julian calendar before it; `month` counts from 1.
pub fn gregorian_to_jdn(year: i64, month: i64, day: i64) -> (r: i64)
    requires
        -10_000_000_000 <= year <= 10_000_000_000,
        1 <= month <= 12,
        -10_000_000_000 <= day <= 10_000_000_000,
    ensures
        r == gregorian_jdn(year as int, month as int, day as int),
{
    if year > 1582 || (year == 1582 && month > 10) || (year == 1582 && month == 10 && day > 14) {
        let c = (month - 14) / 12;
        let y1 = year + 4800 + c;
        let y2 = year + 4900 + c;
        proof {
            lemma_trunc_floor(1461 * y1, 4);
            lemma_trunc_floor(y2 as int, 100);
            lemma_trunc_floor(3 * tdiv(y2 as int, 100), 4);
        }
        (1461 * y1) / 4 + (367 * (month - 2 - 12 * c)) / 12 - (3 * (y2 / 100)) / 4 + day - 32075
    } else {
        let y1 = year + 5001 + (month - 9) / 7;
        proof {
            lemma_trunc_floor(7 * y1, 4);
        }
        367 * year - (7 * y1) / 4 + (275 * month) / 9 + day + 1729777
    }
}

/// The date (year, month from 1, day) of a Julian Day Number: Gregorian
/// after `REFORM_JDN`, Julian up to it.
pub fn jdn_to_gregorian(jdn: i64) -> (r: (i64, i64, i64))
    requires
        jdn_in_range(jdn as int),
    ensures
        (r.0 as int, r.1 as int, r.2 as int) == jdn_gregorian(jdn as int),
        1 <= r.1 <= 12,
        1 <= r.2 <= 31,
        -3_000_000_000 <= r.0 <= 3_000_000_000,
{
    if jdn > REFORM_JDN {
        let l0 = jdn + 68569;
        let n = floor_div(4 * l0, 146097);
        let l1 = l0 - floor_div(146097 * n + 3, 4);
        let i = floor_div(4000 * (l1 + 1), 1461001);
        let l2 = l1 - floor_div(1461 * i, 4) + 31;
        let j = floor_div(80 * l2, 2447);
        let d = l2 - floor_div(2447 * j, 80);
        let l3 = floor_div(j, 11);
        (100 * (n - 49) + i + l3, j + 2 - 12 * l3, d)
    } else {
        let j0 = jdn + 1402;
        let k = floor_div(j0 - 1, 1461);
        let l = j0 - 1461 * k;
        let n = floor_div(l - 1, 365) - floor_div(l, 1461);
        let i0 = l - 365 * n + 30;
        let j = floor_div(80 * i0, 2447);
        let d = i0 - floor_div(2447 * j, 80);
        let i1 = floor_div(j, 11);
        (4 * k + n + i1 - 4716, j + 2 - 12 * i1, d)
    }
}

/// The Persian year that holds a Julian Day Number.
pub fn jdn_to_persian_year(jdn: i64) -> (r: i64)
    requires
        jdn_in_range(jdn as int),
    ensures
        r == jdn_persian_year(jdn as int),
        -3_000_000_000 <= r <= 3_000_000_000,
{
    let dep = jdn - persian_to_jdn(475, 1, 1);
    let cyc = floor_div(dep, 1029983);
    let rem = dep - 1029983 * cyc;
    proof {
        vstd::arithmetic::div_mod::lemma_fundamental_div_mod(dep as int, 1029983);
    }
    let ycyc = if rem == 1029982 {
        2820
    } else {
        let a = rem / 366;
        let t = 2134 * a + 2816 * (rem % 366) + 2815;
        t / 1028522 + a + 1
    };
    let year = ycyc + 2820 * cyc + 474;
    if year <= 0 {
        year - 1
    } else {
        year
    }
}

/// The Persian date (year, month from 0, day) of a Julian Day Number.
pub fn jdn_to_persian(jdn: i64) -> (r: (i64, i64, i64))
    requires
        jdn_in_range(jdn as int),
    ensures
        r.0 == jdn_persian_year(jdn as int),
        r.1 == jdn_persian_month(jdn as int),
        r.2 == jdn_persian_day(jdn as int),
        -3_000_000_000 <= r.0 <= 3_000_000_000,
        -100_000 <= r.1 <= 100_000,
        -100_000 <= r.2 <= 100_000,
{
    let year = jdn_to_persian_year(jdn);
    let dy = jdn - persian_to_jdn(year, 1, 1) + 1;
    let month = if dy <= 186 {
        -floor_div(-dy, 31) - 1
    } else {
        -floor_div(-(dy - 6), 30) - 1
    };
    let day = jdn - persian_to_jdn(year, month + 1, 1) + 1;
    (year, month, day)
}

/// Days from the start of the era-position count to the first day of the
/// era-position year `epy`.
pub open spec fn cycle_days_before(epy: int) -> int {
    (epy * 682 - 110) / 2816 + (epy - 1) * 365
}

/// Within one grand cycle, the year that the search picks holds the day:
/// the day lies at most 365 days after that year's first day.
proof fn lemma_cycle_year(rem: int)
    requires
        0 <= rem < 1029982,
    ensures
        ({
            let a = rem / 366;
            let yc = (2134 * a + 2816 * (rem % 366) + 2815) / 1028522 + a + 1;
            &&& 1 <= yc <= 2820
            &&& 0 <= rem - (cycle_days_before(yc + 474) - cycle_days_before(475)) <= 365
            &&& rem < cycle_days_before(yc + 475) - cycle_days_before(475)
        }),
{
}

/// The era-relative year of the formula: there is no year 0, so year 1
/// follows year -1.
pub open spec fn year_base(year: int) -> int {
    if year >= 0 {
        year - 474
    } else {
        year - 473
    }
}

/// Farvardin 1 of the year whose era-relative year is `base`.
pub open spec fn year_start_of_base(base: int) -> int {
    cycle_days_before(474 + base % 2820) + 1029983 * (base / 2820) + 1948321
}

/// The day numbers whose Persian year fits an `i32`.
pub open spec fn persian_convertible(jdn: int) -> bool {
    &&& jdn_in_range(jdn)
    &&& i32::MIN <= jdn_persian_year(jdn) <= i32::MAX
}

/// The date found for a day number is a date of the 2820-year cycle, lies
/// in the year found, and leads back to the same day number.
pub proof fn lemma_jdn_to_persian(jdn: int)
    requires
        jdn_in_range(jdn),
    ensures
        ({
            let y = jdn_persian_year(jdn);
            let m = jdn_persian_month(jdn);
            let d = jdn_persian_day(jdn);
            &&& y != 0
            &&& 0 <= m <= 11
            &&& 1 <= d <= 31
            &&& m >= 6 ==> d <= 30
            &&& jdn - persian_jdn(y, 1, 1) == persian_days_before(m) + d - 1
            &&& persian_jdn(y, m + 1, d) == jdn
            &&& persian_jdn(y, 1, 1) == year_start_of_base(year_base(y))
            &&& jdn < year_start_of_base(year_base(y) + 1)
        }),
{
    let dep = jdn - persian_jdn(475, 1, 1);
    let cyc = dep / 1029983;
    let rem = dep % 1029983;
    if rem != 1029982 {
        lemma_cycle_year(rem);
    }
    let y = jdn_persian_year(jdn);
    let base = year_base(y);
    let yc = base - 2820 * cyc;
    assert(1 <= yc <= 2820);
    if yc == 2820 {
        vstd::arithmetic::div_mod::lemma_fundamental_div_mod_converse(base, 2820, cyc + 1, 0);
        vstd::arithmetic::div_mod::lemma_fundamental_div_mod_converse(base + 1, 2820, cyc + 1, 1);
    } else {
        vstd::arithmetic::div_mod::lemma_fundamental_div_mod_converse(base, 2820, cyc, yc);
        if yc == 2819 {
            vstd::arithmetic::div_mod::lemma_fundamental_div_mod_converse(
                base + 1,
                2820,
                cyc + 1,
                0,
            );
        } else {
            vstd::arithmetic::div_mod::lemma_fundamental_div_mod_converse(
                base + 1,
                2820,
                cyc,
                yc + 1,
            );
        }
    }
}

/// Farvardin 1 moves forward with the era-relative year.
pub proof fn lemma_year_start_increases(b1: int, b2: int)
    requires
        b1 <= b2,
    ensures
        year_start_of_base(b1) <= year_start_of_base(b2),
{
    let q1 = b1 / 2820;
    let q2 = b2 / 2820;
    let r1 = b1 % 2820;
    let r2 = b2 % 2820;
    assert(cycle_days_before(474 + r1) <= cycle_days_before(3293));
    assert(cycle_days_before(474 + r2) >= cycle_days_before(474));
    if q1 == q2 {
        assert(r1 <= r2);
        assert(cycle_days_before(474 + r1) <= cycle_days_before(474 + r2));
    } else {
        assert(q1 < q2);
        assert(1029983 * q1 + 1029983 <= 1029983 * q2);
    }
}

/// A Persian date of the 2820-year cycle is found again from its day
/// number.
pub proof fn lemma_persian_date_round_trip(year: int, month: int, day: int)
    requires
        year != 0,
        1 <= month <= 12,
        1 <= day,
        month <= 6 ==> day <= 31,
        month >= 7 ==> day <= 30,
        persian_jdn(year, month, day) < year_start_of_base(year_base(year) + 1),
        jdn_in_range(persian_jdn(year, month, day)),
    ensures
        jdn_persian_year(persian_jdn(year, month, day)) == year,
        jdn_persian_month(persian_jdn(year, month, day)) == month - 1,
        jdn_persian_day(persian_jdn(year, month, day)) == day,
{
    let jdn = persian_jdn(year, month, day);
    assert(persian_jdn(year, 1, 1) == year_start_of_base(year_base(year)));
    assert(persian_jdn(year, 1, 1) <= jdn);
    lemma_jdn_to_persian(jdn);
    let y = jdn_persian_year(jdn);
    let b = year_base(year);
    let by = year_base(y);
    if by < b {
        lemma_year_start_increases(by + 1, b);
    } else if by > b {
        lemma_year_start_increases(b + 1, by);
    }
    assert(by == b);
    assert(y == year);
}

/// Days from March 1 to the first of the month `mp` of a year that starts
/// in March (1 = March, ..., 12 = February).
pub open spec fn march_days_before(mp: int) -> int {
    (367 * mp) / 12 - 30
}

/// The inverse steps recover the month and the day from the day of a
/// year that starts in March.
proof fn lemma_gregorian_month(mp: int, d: int)
    requires
        1 <= mp <= 12,
        1 <= d <= 31,
        mp == 12 ==> d <= 29,
        mp == 2 || mp == 4 || mp == 7 || mp == 9 ==> d <= 30,
    ensures
        ({
            let l2 = march_days_before(mp) + d - 1 + 31;
            let j = (80 * l2) / 2447;
            &&& l2 - (2447 * j) / 80 == d
            &&& j / 11 == if mp <= 10 { 0int } else { 1int }
            &&& j + 2 - 12 * (j / 11) == if mp <= 10 { mp + 2 } else { mp - 10 }
        }),
{
    if mp == 1 {} else if mp == 2 {} else if mp == 3 {} else if mp == 4 {} else if mp == 5 {
    } else if mp == 6 {} else if mp == 7 {} else if mp == 8 {} else if mp == 9 {
    } else if mp == 10 {} else if mp == 11 {} else {}
}

/// The inverse steps recover the year within a century from the day
/// count within it.
proof fn lemma_gregorian_year_in_century(s: int, dm: int)
    requires
        0 <= s < 100,
        0 <= dm <= 365,
        dm == 365 ==> s % 4 == 3,
    ensures
        (4000 * (365 * s + s / 4 + dm + 1)) / 1461001 == s,
        (1461 * s) / 4 == 365 * s + s / 4,
{
}

/// The inverse steps recover the century within a 400-year block.
proof fn lemma_gregorian_century(c: int, z: int)
    requires
        0 <= c < 4,
        0 <= z <= 36524,
        z == 36524 ==> c == 3,
    ensures
        (4 * (36525 + 36524 * c + z)) / 146097 == 1 + c,
        (146097 * (1 + c) + 3) / 4 == 36525 + 36524 * c,
{
}

/// From the reform on, a date's day number over its place in the 400-year
/// block: `q` blocks, `c` centuries, `s` years and `dm` days after March 1.
proof fn lemma_gregorian_jdn_block(year: int, month: int, day: int)
    requires
        1 <= month <= 12,
        1 <= day <= 31,
        after_reform(year, month, day),
    ensures
        ({
            let a: int = if month <= 2 { 1 } else { 0 };
            let yp = year + 4800 - a;
            let q = yp / 400;
            let c = (yp % 400) / 100;
            let s = (yp % 400) % 100;
            let dm = march_days_before(month - 2 + 12 * a) + day - 1;
            &&& yp == 400 * q + 100 * c + s
            &&& gregorian_jdn(year, month, day) + 68569 == 146097 * q + 36525 + 36524 * c + 365 * s
                + s / 4 + dm
        }),
{
    let a: int = if month <= 2 { 1 } else { 0 };
    let yp = year + 4800 - a;
    let mp = month - 2 + 12 * a;
    let q = yp / 400;
    let r = yp % 400;
    let c = r / 100;
    let s = r % 100;
    assert(tdiv(month - 14, 12) == -a);
    assert(yp == 400 * q + 100 * c + s);
    assert(tdiv(1461 * yp, 4) == 146100 * q + 36525 * c + 365 * s + s / 4) by {
        assert(1461 * yp == 4 * (146100 * q + 36525 * c + 365 * s + s / 4) + (1461 * s) % 4)
            by (nonlinear_arith)
            requires
                yp == 400 * q + 100 * c + s,
                (1461 * s) == 4 * ((1461 * s) / 4) + (1461 * s) % 4,
                (1461 * s) / 4 == 365 * s + s / 4,
        ;
        lemma_gregorian_year_in_century(s, 0);
    }
    assert(tdiv(yp + 100, 100) == 4 * q + c + 1);
    assert(tdiv(3 * (4 * q + c + 1), 4) == 3 * q + c);
    assert(tdiv(367 * mp, 12) == march_days_before(mp) + 30);
}

/// From the reform on, the date of a date's day number is that date.
#[verifier::rlimit(100)]
pub proof fn lemma_gregorian_round_trip_after_reform(year: int, month: int, day: int)
    requires
        1 <= month <= 12,
        1 <= day <= gregorian_month_len(month - 1, gregorian_leap(year)),
        after_reform(year, month, day),
    ensures
        jdn_gregorian(gregorian_jdn(year, month, day)) == (year, month, day),
{
    let a: int = if month <= 2 { 1 } else { 0 };
    let yp = year + 4800 - a;
    let mp = month - 2 + 12 * a;
    let q = yp / 400;
    let c = (yp % 400) / 100;
    let s = (yp % 400) % 100;
    let dm = march_days_before(mp) + day - 1;
    let z = 365 * s + s / 4 + dm;
    let x = 36525 + 36524 * c + z;
    lemma_gregorian_jdn_block(year, month, day);
    let jdn = gregorian_jdn(year, month, day);
    assert(jdn + 68569 == 146097 * q + x);
    if mp == 12 && day == 29 {
        assert(gregorian_leap(year));
        assert(year == 400 * q + 100 * c + s - 4799);
        assert(s % 4 == 3);
        assert(s == 99 ==> c == 3);
    }
    lemma_gregorian_year_in_century(s, dm);
    lemma_gregorian_century(c, z);
    lemma_gregorian_month(mp, day);
    assert(jdn > REFORM_JDN);
    assert((4 * (146097 * q + x)) / 146097 == 4 * q + 1 + c);
    assert((146097 * (4 * q + 1 + c) + 3) / 4 == 146097 * q + 36525 + 36524 * c);
}

/// The Julian-calendar day number, written over the year that starts in
/// March.
proof fn lemma_julian_terms(year: int, month: int)
    requires
        1 <= month <= 12,
        year >= 1,
    ensures
        ({
            let a: int = if month <= 2 { 1 } else { 0 };
            367 * year - (7 * (year + 5001 - a)) / 4 + (275 * month) / 9 == (1461 * (year + 4716
                - a)) / 4 + march_days_before(month - 2 + 12 * a) - 1731179
        }),
{
    let e = year % 4;
    let t = year / 4;
    assert(year == 4 * t + e);
    if month == 1 {} else if month == 2 {} else if month == 3 {} else if month == 4 {
    } else if month == 5 {} else if month == 6 {} else if month == 7 {} else if month == 8 {
    } else if month == 9 {} else if month == 10 {} else if month == 11 {} else {}
}

/// Before the reform, from the year 1 on, the date of a date's day number
/// is that date.
#[verifier::rlimit(100)]
pub proof fn lemma_gregorian_round_trip_before_reform(year: int, month: int, day: int)
    requires
        1 <= month <= 12,
        1 <= day <= gregorian_month_len(month - 1, gregorian_leap(year)),
        year >= 1,
        !after_reform(year, month, day),
        !(year == 1582 && month == 10 && day >= 5),
    ensures
        jdn_gregorian(gregorian_jdn(year, month, day)) == (year, month, day),
{
    let a: int = if month <= 2 { 1 } else { 0 };
    let yp = year + 4716 - a;
    let mp = month - 2 + 12 * a;
    let k = yp / 4;
    let e = yp % 4;
    let dm = march_days_before(mp) + day - 1;
    assert(tdiv(month - 9, 7) == -a);
    lemma_julian_terms(year, month);
    assert((1461 * yp) / 4 == 1461 * k + 365 * e) by {
        assert(1461 * yp == 4 * (1461 * k + 365 * e) + e) by (nonlinear_arith)
            requires
                yp == 4 * k + e,
        ;
    }
    let jdn = gregorian_jdn(year, month, day);
    assert(jdn + 1401 == 1461 * k + 365 * e + dm);
    if mp == 12 && day == 29 {
        assert(gregorian_leap(year));
        assert(e == 3);
    }
    lemma_gregorian_month(mp, day);
    assert(jdn <= REFORM_JDN);
    assert((jdn + 1401) / 1461 == k);
    assert((jdn + 1402 - 1461 * k - 1) / 365 - (jdn + 1402 - 1461 * k) / 1461 == e);
}

/// Days from the Unix epoch to the day `yday` (from 0) of the Persian
/// `year`, counted year by year with the leap rule; 0 for a day of the
/// year outside `[0, 365]`.
pub fn fixed_get_jdn(year: i32, yday: i32) -> (r: i64)
    ensures
        (yday < 0 || yday > 365) ==> r == 0,
        0 <= yday <= 365 ==> r == days_since_unix_epoch(year as int, yday as int),
{
    if yday > 365 || yday < 0 {
        return 0;
    }
    let (from, to) = if year >= UNIX_EPOCH_PERSIAN_YEAR {
        (UNIX_EPOCH_PERSIAN_YEAR, year)
    } else {
        (year, UNIX_EPOCH_PERSIAN_YEAR)
    };
    let mut p: i64 = 0;
    let mut i: i32 = from;
    while i < to
        invariant
            from <= i <= to,
            p == days_in_years(from as int, i as int),
            0 <= p <= 366 * (i - from),
        decreases to - i,
    {
        let len: i64 = if is_persian_leap(i as i64) {
            366
        } else {
            365
        };
        p = p + len;
        i = i + 1;
    }
    if year >= UNIX_EPOCH_PERSIAN_YEAR {
        p + yday as i64 - UNIX_EPOCH_PERSIAN_YDAY as i64
    } else {
        yday as i64 - UNIX_EPOCH_PERSIAN_YDAY as i64 - p
    }
}

/// The month and the day that the inverse steps read from a day of a year
/// that starts in March (`l2` is that day, from 0, plus 31).
proof fn lemma_march_day(l2: int)
    requires
        31 <= l2 <= 396,
    ensures
        ({
            let j = (80 * l2) / 2447;
            let d = l2 - (2447 * j) / 80;
            &&& 1 <= j <= 12
            &&& 1 <= d <= 31
            &&& march_days_before(j) + d - 1 == l2 - 31
            &&& (153 * (j - 1) + 2) / 5 == march_days_before(j)
            &&& j / 11 == if j >= 11 { 1int } else { 0int }
        }),
{
}

/// The year within a century and the day within that year that the
/// inverse steps read from a day of the century.
proof fn lemma_century_day(l1: int)
    requires
        0 <= l1 <= 36524,
    ensures
        ({
            let i = (4000 * (l1 + 1)) / 1461001;
            &&& 0 <= i <= 99
            &&& (1461 * i) / 4 == 365 * i + i / 4
            &&& 31 <= l1 - (1461 * i) / 4 + 31 <= 396
        }),
{
}

/// From the reform on, the day number of the date found for a day number
/// is that day number.
#[verifier::rlimit(100)]
pub proof fn lemma_jdn_round_trip_after_reform(jdn: int)
    requires
        REFORM_JDN < jdn,
    ensures
        ({
            let (y, m, d) = jdn_gregorian(jdn);
            &&& after_reform(y, m, d)
            &&& 1 <= m <= 12
            &&& 1 <= d <= 31
            &&& gregorian_jdn(y, m, d) == jdn
        }),
{
    let l0 = jdn + 68569;
    let n = (4 * l0) / 146097;
    let l1 = l0 - (146097 * n + 3) / 4;
    assert(n >= 1);
    assert(0 <= l1 <= 36524);
    lemma_century_day(l1);
    let i = (4000 * (l1 + 1)) / 1461001;
    let l2 = l1 - (1461 * i) / 4 + 31;
    lemma_march_day(l2);
    let j = (80 * l2) / 2447;
    let d = l2 - (2447 * j) / 80;
    let l3 = j / 11;
    let m = j + 2 - 12 * l3;
    let y = 100 * (n - 49) + i + l3;
    assert(jdn_gregorian(jdn) == (y, m, d));
    let q = (n - 1) / 4;
    let c = (n - 1) % 4;
    lemma_gregorian_century(c, 0);
    assert((146097 * n + 3) / 4 == 146097 * q + 36525 + 36524 * c) by {
        assert(146097 * n + 3 == 4 * (146097 * q + 36525 + 36524 * c) + c) by (
        nonlinear_arith)
            requires
                n == 4 * q + c + 1,
        ;
    }
    let yp = y + 4800 - l3;
    assert(yp == 400 * q + 100 * c + i);
    assert(365 * yp + yp / 4 - yp / 100 + yp / 400 == 146097 * q + 36524 * c + 365 * i + i / 4)
        by {
        assert(yp / 4 == 100 * q + 25 * c + i / 4);
        assert(yp / 100 == 4 * q + c);
        assert(yp / 400 == q);
    }
    assert(after_reform(y, m, d));
    lemma_gregorian_jdn_civil_days(y, m, d);
}

/// From the reform on, the reform-aware day number in the form of the
/// proleptic Gregorian day count.
proof fn lemma_gregorian_jdn_civil_days(year: int, month: int, day: int)
    requires
        1 <= month <= 12,
        after_reform(year, month, day),
    ensures
        ({
            let a: int = if month <= 2 { 1 } else { 0 };
            let y = year + 4800 - a;
            gregorian_jdn(year, month, day) == day + (153 * (month + 12 * a - 3) + 2) / 5 + 365 * y
                + y / 4 - y / 100 + y / 400 - 32045
        }),
{
    crate::clock::lemma_gregorian_jdn_civil(year, month, day);
}

/// Up to the reform, from the year 1 on, the day number of the date found
/// for a day number is that day number.
#[verifier::rlimit(100)]
pub proof fn lemma_jdn_round_trip_before_reform(jdn: int)
    requires
        1721424 <= jdn <= REFORM_JDN,
    ensures
        ({
            let (y, m, d) = jdn_gregorian(jdn);
            &&& !after_reform(y, m, d)
            &&& 1 <= m <= 12
            &&& 1 <= d <= 31
            &&& 1 <= y
            &&& gregorian_jdn(y, m, d) == jdn
        }),
{
    let j0 = jdn + 1402;
    let k = (j0 - 1) / 1461;
    let l = j0 - 1461 * k;
    let n = (l - 1) / 365 - l / 1461;
    let i0 = l - 365 * n + 30;
    assert(0 <= n <= 3);
    assert(31 <= i0 <= 396);
    lemma_march_day(i0);
    let j = (80 * i0) / 2447;
    let d = i0 - (2447 * j) / 80;
    let i1 = j / 11;
    let m = j + 2 - 12 * i1;
    let y = 4 * k + n + i1 - 4716;
    assert(jdn_gregorian(jdn) == (y, m, d));
    assert(y >= 1);
    lemma_julian_terms(y, m);
    let yp = y + 4716 - i1;
    assert(yp == 4 * k + n);
    assert((1461 * yp) / 4 == 1461 * k + 365 * n) by {
        assert(1461 * yp == 4 * (1461 * k + 365 * n) + n) by (nonlinear_arith)
            requires
                yp == 4 * k + n,
        ;
    }
    assert(tdiv(m - 9, 7) == -i1);
    assert(!after_reform(y, m, d));
}

/// The Gregorian year of a day number up to the last day of the `i32`
/// Persian years, less 1900, fits an `i32`.
proof fn lemma_gregorian_year_bound(jdn: int)
    requires
        1721424 <= jdn <= 784_354_000_000,
    ensures
        jdn_gregorian(jdn).0 - 1900 <= i32::MAX,
{
    if jdn > REFORM_JDN {
        let l0 = jdn + 68569;
        let n = (4 * l0) / 146097;
        assert(n <= 21474885);
        let l1 = l0 - (146097 * n + 3) / 4;
        assert(0 <= l1 <= 36524);
        let i = (4000 * (l1 + 1)) / 1461001;
        assert(0 <= i <= 99);
        let l2 = l1 - (1461 * i) / 4 + 31;
        assert(l2 <= 36600);
        let j = (80 * l2) / 2447;
        assert(j / 11 <= 200);
    }
}

/// From the Julian calendar's 0001-01-01 up to the last day of the `i32`
/// Persian years, the date found for a day number leads back to it.
pub proof fn lemma_jdn_round_trip(jdn: int)
    requires
        1721424 <= jdn <= 784_354_000_000,
    ensures
        ({
            let (y, m, d) = jdn_gregorian(jdn);
            &&& 1 <= y
            &&& y - 1900 <= i32::MAX
            &&& 1 <= m <= 12
            &&& 1 <= d <= 31
            &&& gregorian_jdn(y, m, d) == jdn
        }),
{
    lemma_gregorian_year_bound(jdn);
    if jdn > REFORM_JDN {
        lemma_jdn_round_trip_after_reform(jdn);
    } else {
        lemma_jdn_round_trip_before_reform(jdn);
    }
}

/// Day numbers within twenty billion days of the epoch have Persian years
/// that fit an `i32`.
pub proof fn lemma_persian_year_bound(jdn: int)
    requires
        -20_000_000_000 <= jdn <= 20_000_000_000,
    ensures
        persian_convertible(jdn),
{
    lemma_jdn_to_persian(jdn);
    let y = jdn_persian_year(jdn);
    let b = year_base(y);
    if y > 100_000_000 {
        lemma_year_start_increases(100_000_000 - 474, b);
        assert(year_start_of_base(100_000_000 - 474) > 20_000_000_000);
    }
    if y < -100_000_000 {
        lemma_year_start_increases(b + 1, -100_000_000 - 473 + 1);
        assert(year_start_of_base(-100_000_000 - 473 + 1) < -20_000_000_000);
    }
}

} // verus!
