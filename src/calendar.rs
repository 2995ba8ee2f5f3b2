//! Range checks of date and time components, and the fixed tables of the
//! two calendars.

use vstd::prelude::*;

use crate::leap::{gregorian_leap, is_gregorian_leap, is_persian_leap, persian_leap};

verus! {

/// Days in the Persian month `month` (0 = Farvardin) of a leap or common year.
pub open spec fn persian_month_len(month: int, leap: bool) -> int {
    if month < 6 {
        31
    } else if month < 11 {
        30
    } else if leap {
        30
    } else {
        29
    }
}

/// Days in the Gregorian month `month` (0 = January) of a leap or common year.
pub open spec fn gregorian_month_len(month: int, leap: bool) -> int {
    if month == 1 {
        if leap {
            29
        } else {
            28
        }
    } else if month == 3 || month == 5 || month == 8 || month == 10 {
        30
    } else {
        31
    }
}

/// The time of day lies in its ranges.
pub open spec fn time_valid(hour: int, minute: int, second: int, nanosecond: int) -> bool {
    0 <= hour <= 23 && 0 <= minute <= 59 && 0 <= second <= 59 && 0 <= nanosecond <= 999_999_999
}

/// `day` of `month` (from 0) exists in the Persian `year`.
pub open spec fn persian_date_valid(year: int, month: int, day: int) -> bool {
    0 <= month <= 11 && 1 <= day <= persian_month_len(month, persian_leap(year))
}

/// `day` of `month` (from 0) exists in the Gregorian `year`.
pub open spec fn gregorian_date_valid(year: int, month: int, day: int) -> bool {
    0 <= month <= 11 && 1 <= day <= gregorian_month_len(month, gregorian_leap(year))
}

/// Days of the Persian year before the first of `month` (from 0).
pub open spec fn persian_days_before(month: int) -> int {
    if month < 6 {
        31 * month
    } else {
        186 + 30 * (month - 6)
    }
}

/// Day of the Persian year, from 0 on Farvardin 1.
pub open spec fn persian_yday(month: int, day: int) -> int {
    persian_days_before(month) + day - 1
}

/// Days of the Gregorian year before the first of `month` (from 0).
pub open spec fn gregorian_days_before(month: int, leap: bool) -> int {
    let common: int = if month == 0 {
        0
    } else if month == 1 {
        31
    } else if month == 2 {
        59
    } else if month == 3 {
        90
    } else if month == 4 {
        120
    } else if month == 5 {
        151
    } else if month == 6 {
        181
    } else if month == 7 {
        212
    } else if month == 8 {
        243
    } else if month == 9 {
        273
    } else if month == 10 {
        304
    } else {
        334
    };
    if leap && month >= 2 {
        common + 1
    } else {
        common
    }
}

/// Gregorian weekday (0 = Sunday) to Persian weekday (0 = Shanbeh).
pub open spec fn persian_weekday(wd: int) -> int {
    (wd + 1) % 7
}

/// Persian weekday (0 = Shanbeh) to Gregorian weekday (0 = Sunday).
pub open spec fn gregorian_weekday(wd: int) -> int {
    (wd + 6) % 7
}

/// True iff the time of day lies in its ranges.
pub fn is_time_valid(hour: i32, minute: i32, second: i32, nanosecond: i32) -> (r: bool)
    ensures
        r == time_valid(hour as int, minute as int, second as int, nanosecond as int),
{
    !(hour < 0 || hour > 23 || minute < 0 || minute > 59 || second < 0 || second > 59
        || nanosecond < 0 || nanosecond > 999999999)
}

/// Days in a Persian month, from the table of common and leap years.
pub fn persian_month_length(month: i32, leap: bool) -> (r: i32)
    requires
        0 <= month <= 11,
    ensures
        r == persian_month_len(month as int, leap),
{
    let table: [[i32; 2]; 12] = [
        [31, 31],
        [31, 31],
        [31, 31],
        [31, 31],
        [31, 31],
        [31, 31],
        [30, 30],
        [30, 30],
        [30, 30],
        [30, 30],
        [30, 30],
        [29, 30],
    ];
    let row = table[month as usize];
    if leap {
        row[1]
    } else {
        row[0]
    }
}

/// Days in a Gregorian month, from the table of common and leap years.
pub fn gregorian_month_length(month: i32, leap: bool) -> (r: i32)
    requires
        0 <= month <= 11,
    ensures
        r == gregorian_month_len(month as int, leap),
{
    let table: [[i32; 2]; 12] = [
        [31, 31],
        [28, 29],
        [31, 31],
        [30, 30],
        [31, 31],
        [30, 30],
        [31, 31],
        [31, 31],
        [30, 30],
        [31, 31],
        [30, 30],
        [31, 31],
    ];
    let row = table[month as usize];
    if leap {
        row[1]
    } else {
        row[0]
    }
}

/// True iff `day` of `month` (from 0) exists in the Persian `year`.
pub fn is_persian_date_valid(year: i32, month: i32, day: i32) -> (r: bool)
    ensures
        r == persian_date_valid(year as int, month as int, day as int),
{
    if month < 0 || month > 11 {
        return false;
    }
    1 <= day && day <= persian_month_length(month, is_persian_leap(year as i64))
}

/// True iff `day` of `month` (from 0) exists in the Gregorian `year`.
pub fn is_gregorian_date_valid(year: i32, month: i32, day: i32) -> (r: bool)
    ensures
        r == gregorian_date_valid(year as int, month as int, day as int),
{
    if month < 0 || month > 11 {
        return false;
    }
    1 <= day && day <= gregorian_month_length(month, is_gregorian_leap(year as i64))
}

/// Day of the Persian year (from 0) of `day` in `month` (from 0).
pub fn get_persian_yday(month: i32, day: i32) -> (r: i32)
    requires
        0 <= month <= 11,
        1 <= day <= 31,
    ensures
        r == persian_yday(month as int, day as int),
{
    let table: [i32; 12] = [0, 31, 62, 93, 124, 155, 186, 216, 246, 276, 306, 336];
    table[month as usize] + day - 1
}

/// Day of the Gregorian year (from 0) of `day` in `month` (from 0).
pub fn get_gregorian_yday(month: i32, day: i32, leap: bool) -> (r: i32)
    requires
        0 <= month <= 11,
        1 <= day <= 31,
    ensures
        r == gregorian_days_before(month as int, leap) + day - 1,
{
    let table: [[i32; 12]; 2] = [
        [0, 31, 59, 90, 120, 151, 181, 212, 243, 273, 304, 334],
        [0, 31, 60, 91, 121, 152, 182, 213, 244, 274, 305, 335],
    ];
    let row = if leap {
        table[1]
    } else {
        table[0]
    };
    row[month as usize] + day - 1
}

/// Persian weekday (0 = Shanbeh) of a Gregorian weekday (0 = Sunday).
pub fn get_persian_weekday(wd: i32) -> (r: i32)
    requires
        0 <= wd <= 6,
    ensures
        r == persian_weekday(wd as int),
        0 <= r <= 6,
{
    let table: [i32; 7] = [1, 2, 3, 4, 5, 6, 0];
    table[wd as usize]
}

/// Gregorian weekday (0 = Sunday) of a Persian weekday (0 = Shanbeh).
pub fn get_gregorian_weekday(wd: i32) -> (r: i32)
    requires
        0 <= wd <= 6,
    ensures
        r == gregorian_weekday(wd as int),
        0 <= r <= 6,
{
    let table: [i32; 7] = [6, 0, 1, 2, 3, 4, 5];
    table[wd as usize]
}

/// In a common year, Esfand has no 30th day and February no 29th: the
/// validators refuse both.
pub proof fn lemma_common_year_month_ends(year: int)
    ensures
        !persian_leap(year) ==> !persian_date_valid(year, 11, 30),
        !gregorian_leap(year) ==> !gregorian_date_valid(year, 1, 29),
{
}

} // verus!
