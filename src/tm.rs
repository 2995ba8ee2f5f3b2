//! The Persian date-time value and its conversions from and to the
//! Gregorian broken-down time.

use vstd::prelude::*;

use crate::calendar::{
    gregorian_date_valid, is_gregorian_date_valid, is_persian_date_valid, is_time_valid,
    get_gregorian_weekday, get_gregorian_yday, get_persian_weekday, get_persian_yday,
    gregorian_days_before, gregorian_weekday, persian_date_valid, persian_weekday, persian_yday,
    time_valid,
};
use crate::julian::{
    after_reform, gregorian_jdn, gregorian_to_jdn, jdn_gregorian, jdn_in_range, jdn_persian_day,
    jdn_persian_month, jdn_persian_year, jdn_to_gregorian, jdn_to_persian,
    lemma_gregorian_round_trip_after_reform, lemma_gregorian_round_trip_before_reform,
    lemma_jdn_round_trip, lemma_jdn_to_persian,
    lemma_persian_date_round_trip, lemma_year_start_increases, persian_convertible, persian_jdn, jdn_to_persian_year, year_base, year_start_of_base,
    persian_to_jdn,
};
use crate::leap::{divider, gregorian_leap, is_gregorian_leap, is_persian_leap, persian_leap};

verus! {

/// The components of a moment in time in the Persian calendar.
#[derive(Copy, Clone, Debug, Hash, PartialEq, Eq, Structural)]
pub struct Tm {
    /// Seconds after the minute.
    pub tm_sec: i32,
    /// Minutes after the hour.
    pub tm_min: i32,
    /// Hours after midnight.
    pub tm_hour: i32,
    /// Day of the month, from 1.
    pub tm_mday: i32,
    /// Month since Farvardin, from 0.
    pub tm_mon: i32,
    /// Year.
    pub tm_year: i32,
    /// Weekday since Shanbeh: 0 = Shanbeh, ..., 6 = Jomeh.
    pub tm_wday: i32,
    /// Day of the year since Farvardin 1, from 0.
    pub tm_yday: i32,
    /// Daylight saving flag, carried through.
    pub tm_isdst: i32,
    /// Offset from UTC in seconds, carried through.
    pub tm_utcoff: i32,
    /// Nanoseconds after the second.
    pub tm_nsec: i32,
}

/// The components of a moment in time in the Gregorian calendar, laid out
/// as a C `struct tm`.
#[derive(Copy, Clone, Debug, Hash, PartialEq, Eq, Structural)]
pub struct GregorianTm {
    /// Seconds after the minute.
    pub tm_sec: i32,
    /// Minutes after the hour.
    pub tm_min: i32,
    /// Hours after midnight.
    pub tm_hour: i32,
    /// Day of the month, from 1.
    pub tm_mday: i32,
    /// Month since January, from 0.
    pub tm_mon: i32,
    /// Years since 1900.
    pub tm_year: i32,
    /// Weekday since Sunday, from 0.
    pub tm_wday: i32,
    /// Day of the year since January 1, from 0.
    pub tm_yday: i32,
    /// Daylight saving flag.
    pub tm_isdst: i32,
    /// Offset from UTC in seconds.
    pub tm_utcoff: i32,
    /// Nanoseconds after the second.
    pub tm_nsec: i32,
}

/// Julian Day Number of the date of a Persian time.
pub open spec fn tm_jdn(t: Tm) -> int {
    persian_jdn(t.tm_year as int, t.tm_mon + 1, t.tm_mday as int)
}

/// Julian Day Number of the date of a Gregorian time (Julian calendar
/// before the reform).
pub open spec fn gregorian_tm_jdn(g: GregorianTm) -> int {
    gregorian_jdn(g.tm_year + 1900, g.tm_mon + 1, g.tm_mday as int)
}

/// Persian weekday (0 = Shanbeh) of a Julian Day Number.
pub open spec fn jdn_persian_weekday(jdn: int) -> int {
    (jdn + 2) % 7
}

/// A Persian time whose fields all lie in their ranges and agree with
/// each other and with the leap rule.
pub open spec fn tm_valid(t: Tm) -> bool {
    &&& time_valid(t.tm_hour as int, t.tm_min as int, t.tm_sec as int, t.tm_nsec as int)
    &&& persian_date_valid(t.tm_year as int, t.tm_mon as int, t.tm_mday as int)
    &&& t.tm_yday == persian_yday(t.tm_mon as int, t.tm_mday as int)
    &&& t.tm_wday == jdn_persian_weekday(tm_jdn(t))
}

/// The date fields of a Persian time lie in their ranges: what the
/// formatter's tables need.
pub open spec fn tm_fields_in_range(t: Tm) -> bool {
    &&& 0 <= t.tm_mon <= 11
    &&& 1 <= t.tm_mday <= 31
    &&& 0 <= t.tm_wday <= 6
    &&& 0 <= t.tm_yday <= 365
}

/// A Gregorian time that the conversion to the Persian calendar takes:
/// month, day and weekday in their ranges, and a date that the conversion
/// covers.
pub open spec fn gregorian_tm_convertible(g: GregorianTm) -> bool {
    &&& 0 <= g.tm_mon <= 11
    &&& 1 <= g.tm_mday <= 31
    &&& 0 <= g.tm_wday <= 6
    &&& persian_convertible(gregorian_tm_jdn(g))
}

/// The Persian time of a Gregorian time: the date of its day number, the
/// weekday mapped from the Gregorian weekday, the rest carried through.
pub open spec fn persian_of(g: GregorianTm) -> Tm {
    persian_of_day(gregorian_tm_jdn(g), g)
}

/// The Persian time on the day number `jdn` with the weekday and the time
/// of day of `g`.
pub open spec fn persian_of_day(jdn: int, g: GregorianTm) -> Tm {
    let month = jdn_persian_month(jdn);
    let day = jdn_persian_day(jdn);
    Tm {
        tm_sec: g.tm_sec,
        tm_min: g.tm_min,
        tm_hour: g.tm_hour,
        tm_mday: day as i32,
        tm_mon: month as i32,
        tm_year: jdn_persian_year(jdn) as i32,
        tm_wday: persian_weekday(g.tm_wday as int) as i32,
        tm_yday: persian_yday(month, day) as i32,
        tm_isdst: g.tm_isdst,
        tm_utcoff: g.tm_utcoff,
        tm_nsec: g.tm_nsec,
    }
}

/// The Persian time can be written in the Gregorian calendar: its weekday
/// lies in its range and the Gregorian year fits the field.
pub open spec fn tm_convertible(t: Tm) -> bool {
    let y = jdn_gregorian(tm_jdn(t)).0;
    &&& 0 <= t.tm_wday <= 6
    &&& i32::MIN <= y - 1900 <= i32::MAX
}

/// The Gregorian time of a Persian time: the date of its day number, the
/// weekday mapped from the Persian weekday, the rest carried through.
pub open spec fn gregorian_of(t: Tm) -> GregorianTm {
    let (y, m, d) = jdn_gregorian(tm_jdn(t));
    GregorianTm {
        tm_sec: t.tm_sec,
        tm_min: t.tm_min,
        tm_hour: t.tm_hour,
        tm_mday: d as i32,
        tm_mon: (m - 1) as i32,
        tm_year: (y - 1900) as i32,
        tm_wday: gregorian_weekday(t.tm_wday as int) as i32,
        tm_yday: (gregorian_days_before(m - 1, gregorian_leap(y)) + d - 1) as i32,
        tm_isdst: t.tm_isdst,
        tm_utcoff: t.tm_utcoff,
        tm_nsec: t.tm_nsec,
    }
}

/// Julian Day Number of the date of a Persian time.
fn tm_to_jdn(t: &Tm) -> (r: i64)
    ensures
        r == tm_jdn(*t),
        jdn_in_range(r as int),
{
    persian_to_jdn(t.tm_year as i64, t.tm_mon as i64 + 1, t.tm_mday as i64)
}

impl Tm {
    /// True iff the year is a Persian leap year.
    pub fn is_leap(&self) -> (r: bool)
        ensures
            r == persian_leap(self.tm_year as int),
    {
        is_persian_leap(self.tm_year as i64)
    }

    /// The same moment in the Gregorian calendar.
    pub fn to_gregorian(&self) -> (r: GregorianTm)
        requires
            tm_convertible(*self),
        ensures
            r == gregorian_of(*self),
    {
        let jdn = tm_to_jdn(self);
        let (y, m, d) = jdn_to_gregorian(jdn);
        let mon = (m - 1) as i32;
        let mday = d as i32;
        GregorianTm {
            tm_sec: self.tm_sec,
            tm_min: self.tm_min,
            tm_hour: self.tm_hour,
            tm_mday: mday,
            tm_mon: mon,
            tm_year: (y - 1900) as i32,
            tm_wday: get_gregorian_weekday(self.tm_wday),
            tm_yday: get_gregorian_yday(mon, mday, is_gregorian_leap(y)),
            tm_isdst: self.tm_isdst,
            tm_utcoff: self.tm_utcoff,
            tm_nsec: self.tm_nsec,
        }
    }
}

/// A Persian time with every field zero.
pub fn empty_tm() -> (r: Tm)
    ensures
        r.tm_sec == 0 && r.tm_min == 0 && r.tm_hour == 0,
        r.tm_mday == 0 && r.tm_mon == 0 && r.tm_year == 0,
        r.tm_wday == 0 && r.tm_yday == 0,
        r.tm_isdst == 0 && r.tm_utcoff == 0 && r.tm_nsec == 0,
{
    Tm {
        tm_sec: 0,
        tm_min: 0,
        tm_hour: 0,
        tm_mday: 0,
        tm_mon: 0,
        tm_year: 0,
        tm_wday: 0,
        tm_yday: 0,
        tm_isdst: 0,
        tm_utcoff: 0,
        tm_nsec: 0,
    }
}

/// The same moment in the Persian calendar.
pub fn from_gregorian(gregorian_tm: GregorianTm) -> (r: Tm)
    requires
        gregorian_tm_convertible(gregorian_tm),
    ensures
        r == persian_of(gregorian_tm),
        tm_fields_in_range(r),
        tm_jdn(r) == gregorian_tm_jdn(gregorian_tm),
{
    let jdn = gregorian_to_jdn(
        gregorian_tm.tm_year as i64 + 1900,
        gregorian_tm.tm_mon as i64 + 1,
        gregorian_tm.tm_mday as i64,
    );
    persian_at_jdn(jdn, &gregorian_tm)
}

/// The Persian time on the day number `jdn` with the weekday and the time
/// of day of `g`.
pub(crate) fn persian_at_jdn(jdn: i64, g: &GregorianTm) -> (r: Tm)
    requires
        0 <= g.tm_wday <= 6,
        persian_convertible(jdn as int),
    ensures
        r == persian_of_day(jdn as int, *g),
        tm_fields_in_range(r),
        tm_jdn(r) == jdn,
{
    proof {
        lemma_jdn_to_persian(jdn as int);
    }
    let (year, month, day) = jdn_to_persian(jdn);
    let month = month as i32;
    let day = day as i32;
    Tm {
        tm_sec: g.tm_sec,
        tm_min: g.tm_min,
        tm_hour: g.tm_hour,
        tm_mday: day,
        tm_mon: month,
        tm_year: year as i32,
        tm_wday: get_persian_weekday(g.tm_wday),
        tm_yday: get_persian_yday(month, day),
        tm_isdst: g.tm_isdst,
        tm_utcoff: g.tm_utcoff,
        tm_nsec: g.tm_nsec,
    }
}

/// The Gregorian time of a validated date and time of day, with its
/// weekday and day of the year worked out and no offset from UTC.
pub open spec fn gregorian_components(
    year: int,
    month: int,
    day: int,
    hour: int,
    minute: int,
    second: int,
    nanosecond: int,
) -> GregorianTm {
    GregorianTm {
        tm_sec: second as i32,
        tm_min: minute as i32,
        tm_hour: hour as i32,
        tm_mday: day as i32,
        tm_mon: month as i32,
        tm_year: (year - 1900) as i32,
        tm_wday: ((gregorian_jdn(year, month + 1, day) + 1) % 7) as i32,
        tm_yday: (gregorian_days_before(month, gregorian_leap(year)) + day - 1) as i32,
        tm_isdst: 0,
        tm_utcoff: 0,
        tm_nsec: nanosecond as i32,
    }
}

/// The Persian time of a validated Persian date and time of day, with its
/// weekday and day of the year worked out and no offset from UTC.
pub open spec fn persian_components(
    year: int,
    month: int,
    day: int,
    hour: int,
    minute: int,
    second: int,
    nanosecond: int,
) -> Tm {
    Tm {
        tm_sec: second as i32,
        tm_min: minute as i32,
        tm_hour: hour as i32,
        tm_mday: day as i32,
        tm_mon: month as i32,
        tm_year: year as i32,
        tm_wday: jdn_persian_weekday(persian_jdn(year, month + 1, day)) as i32,
        tm_yday: persian_yday(month, day) as i32,
        tm_isdst: 0,
        tm_utcoff: 0,
        tm_nsec: nanosecond as i32,
    }
}

/// The Persian time of a Gregorian date (month from 0) and time of day.
/// `None` when a component is out of its range or the date does not exist,
/// and for dates so far from the epochs that the Persian year would not
/// fit an `i32`.
pub fn from_gregorian_components(
    g_year: i32,
    g_month: i32,
    g_day: i32,
    hour: i32,
    minute: i32,
    second: i32,
    nanosecond: i32,
) -> (r: Option<Tm>)
    ensures
        r is Some <==> time_valid(hour as int, minute as int, second as int, nanosecond as int)
            && gregorian_date_valid(g_year as int, g_month as int, g_day as int)
            && persian_convertible(gregorian_jdn(g_year as int, g_month + 1, g_day as int)),
        r is Some ==> r->0 == persian_of(
            gregorian_components(
                g_year as int,
                g_month as int,
                g_day as int,
                hour as int,
                minute as int,
                second as int,
                nanosecond as int,
            ),
        ),
        r is Some ==> tm_fields_in_range(r->0),
{
    if !(is_time_valid(hour, minute, second, nanosecond) && is_gregorian_date_valid(
        g_year,
        g_month,
        g_day,
    )) {
        return None;
    }
    let jdn = gregorian_to_jdn(g_year as i64, g_month as i64 + 1, g_day as i64);
    if jdn < -1_000_000_000_000 || jdn > 1_000_000_000_000 {
        return None;
    }
    let year = jdn_to_persian_year(jdn);
    if year < i32::MIN as i64 || year > i32::MAX as i64 {
        return None;
    }
    let wday = divider(jdn + 1, 7) as i32;
    let yday = get_gregorian_yday(g_month, g_day, is_gregorian_leap(g_year as i64));
    let g = GregorianTm {
        tm_sec: second,
        tm_min: minute,
        tm_hour: hour,
        tm_mday: g_day,
        tm_mon: g_month,
        tm_year: g_year - 1900,
        tm_wday: wday,
        tm_yday: yday,
        tm_isdst: 0,
        tm_utcoff: 0,
        tm_nsec: nanosecond,
    };
    Some(from_gregorian(g))
}

/// The Persian time of a Gregorian date (month from 0) at midnight.
pub fn from_gregorian_date(g_year: i32, g_month: i32, g_day: i32) -> (r: Option<Tm>)
    ensures
        r is Some <==> gregorian_date_valid(g_year as int, g_month as int, g_day as int)
            && persian_convertible(gregorian_jdn(g_year as int, g_month + 1, g_day as int)),
        r is Some ==> r->0 == persian_of(
            gregorian_components(g_year as int, g_month as int, g_day as int, 0, 0, 0, 0),
        ),
        r is Some ==> tm_fields_in_range(r->0),
{
    from_gregorian_components(g_year, g_month, g_day, 0, 0, 0, 0)
}

/// The Persian time of a Persian date (month from 0) and time of day.
/// `None` when a component is out of its range or the date does not exist.
pub fn from_persian_components(
    p_year: i32,
    p_month: i32,
    p_day: i32,
    hour: i32,
    minute: i32,
    second: i32,
    nanosecond: i32,
) -> (r: Option<Tm>)
    ensures
        r is Some <==> time_valid(hour as int, minute as int, second as int, nanosecond as int)
            && persian_date_valid(p_year as int, p_month as int, p_day as int),
        r is Some ==> r->0 == persian_components(
            p_year as int,
            p_month as int,
            p_day as int,
            hour as int,
            minute as int,
            second as int,
            nanosecond as int,
        ),
        r is Some ==> tm_valid(r->0),
{
    if !(is_time_valid(hour, minute, second, nanosecond) && is_persian_date_valid(
        p_year,
        p_month,
        p_day,
    )) {
        return None;
    }
    let jdn = persian_to_jdn(p_year as i64, p_month as i64 + 1, p_day as i64);
    Some(
        Tm {
            tm_sec: second,
            tm_min: minute,
            tm_hour: hour,
            tm_mday: p_day,
            tm_mon: p_month,
            tm_year: p_year,
            tm_wday: divider(jdn + 2, 7) as i32,
            tm_yday: get_persian_yday(p_month, p_day),
            tm_isdst: 0,
            tm_utcoff: 0,
            tm_nsec: nanosecond,
        },
    )
}

/// The Persian time of a Persian date (month from 0) at midnight.
pub fn from_persian_date(p_year: i32, p_month: i32, p_day: i32) -> (r: Option<Tm>)
    ensures
        r is Some <==> persian_date_valid(p_year as int, p_month as int, p_day as int),
        r is Some ==> r->0 == persian_components(
            p_year as int,
            p_month as int,
            p_day as int,
            0,
            0,
            0,
            0,
        ),
        r is Some ==> tm_valid(r->0),
{
    from_persian_components(p_year, p_month, p_day, 0, 0, 0, 0)
}

/// The Persian time of a Gregorian time lies on the same day number.
proof fn lemma_persian_of_jdn(g: GregorianTm)
    requires
        gregorian_tm_convertible(g),
    ensures
        tm_jdn(persian_of(g)) == gregorian_tm_jdn(g),
{
    let jdn = gregorian_tm_jdn(g);
    lemma_jdn_to_persian(jdn);
    let py = jdn_persian_year(jdn);
    assert(py <= i32::MAX);
}

/// Converting a Gregorian date from the year 1 on to a Persian time and
/// back gives the same date, with its weekday and its day of the year.
/// This holds wherever the Persian year fits an `i32`, and outside the ten
/// days 1582-10-05 to 1582-10-14, which the reform skipped.
#[verifier::rlimit(100)]
pub proof fn lemma_gregorian_round_trip(g_year: i32, g_month: i32, g_day: i32)
    requires
        gregorian_date_valid(g_year as int, g_month as int, g_day as int),
        g_year >= 1,
        !(g_year == 1582 && g_month == 9 && 5 <= g_day <= 14),
        persian_convertible(gregorian_jdn(g_year as int, g_month + 1, g_day as int)),
    ensures
        ({
            let g = gregorian_components(g_year as int, g_month as int, g_day as int, 0, 0, 0, 0);
            &&& tm_convertible(persian_of(g))
            &&& gregorian_of(persian_of(g)) == g
        }),
{
    let y = g_year as int;
    let m = g_month + 1;
    let d = g_day as int;
    let g = gregorian_components(y, g_month as int, d, 0, 0, 0, 0);
    let jdn = gregorian_jdn(y, m, d);
    let w = (jdn + 1) % 7;
    assert(g.tm_year == y - 1900 && g.tm_mon == g_month && g.tm_mday == g_day);
    assert(g.tm_wday == w);
    assert(gregorian_tm_jdn(g) == jdn);
    assert(gregorian_tm_convertible(g));
    let t = persian_of(g);
    assert(tm_jdn(t) == jdn) by {
        lemma_persian_of_jdn(g);
    }
    assert(t.tm_wday == persian_weekday(w));
    assert(jdn_gregorian(jdn) == (y, m, d)) by {
        if after_reform(y, m, d) {
            lemma_gregorian_round_trip_after_reform(y, m, d);
        } else {
            lemma_gregorian_round_trip_before_reform(y, m, d);
        }
    }
    assert(gregorian_weekday(persian_weekday(w)) == w);
    let back = gregorian_of(t);
    assert(back.tm_year == g.tm_year && back.tm_mon == g.tm_mon && back.tm_mday == g.tm_mday);
    assert(back.tm_wday == g.tm_wday);
    assert(back.tm_yday == g.tm_yday);
}

/// The day number of a Persian date from the year 1 on lies between the
/// Julian calendar's 0001-01-01 and the last day of the `i32` years.
proof fn lemma_tm_jdn_bounds(t: Tm)
    requires
        t.tm_year >= 1,
        0 <= t.tm_mon <= 11,
        1 <= t.tm_mday <= 31,
    ensures
        1721424 <= tm_jdn(t) <= 784_354_000_000,
{
    let y = t.tm_year as int;
    lemma_year_start_increases(year_base(1), year_base(y));
    assert(persian_jdn(y, 1, 1) == year_start_of_base(year_base(y)));
    assert(year_start_of_base(year_base(1)) == 1948321);
    let b = y - 474;
    assert(b / 2820 <= 761518);
    assert(474 + b % 2820 <= 3293);
}

/// The Gregorian time of a Persian time from the year 1 on lies on
/// the same day number, and the conversion back takes it.
proof fn lemma_gregorian_of_jdn(t: Tm)
    requires
        0 <= t.tm_wday <= 6,
        t.tm_year >= 1,
        0 <= t.tm_mon <= 11,
        1 <= t.tm_mday <= 31,
    ensures
        tm_convertible(t),
        0 <= gregorian_of(t).tm_mon <= 11,
        1 <= gregorian_of(t).tm_mday <= 31,
        0 <= gregorian_of(t).tm_wday <= 6,
        gregorian_tm_jdn(gregorian_of(t)) == tm_jdn(t),
        jdn_in_range(tm_jdn(t)),
{
    let jdn = tm_jdn(t);
    let (y, m, d) = jdn_gregorian(jdn);
    lemma_tm_jdn_bounds(t);
    lemma_jdn_round_trip(jdn);
    let g = gregorian_of(t);
    assert(g.tm_year + 1900 == y && g.tm_mon + 1 == m && g.tm_mday == d);
}

/// Converting a valid Persian time to the Gregorian calendar and back
/// gives the same time. This holds for dates from the year 1 on that the
/// conversion covers and that the 2820-year cycle also has: the
/// leap rule gives some years an Esfand 30 that the cycle puts on the
/// next Farvardin 1.
#[verifier::rlimit(100)]
pub proof fn lemma_persian_round_trip(t: Tm)
    requires
        tm_valid(t),
        t.tm_year >= 1,
        tm_jdn(t) < persian_jdn(t.tm_year + 1, 1, 1),
    ensures
        tm_convertible(t),
        gregorian_tm_convertible(gregorian_of(t)),
        persian_of(gregorian_of(t)) == t,
{
    lemma_gregorian_of_jdn(t);
    let g = gregorian_of(t);
    lemma_persian_date_round_trip(t.tm_year as int, t.tm_mon + 1, t.tm_mday as int);
    assert(gregorian_tm_convertible(g));
    let w = t.tm_wday as int;
    assert(persian_weekday(gregorian_weekday(w)) == w);
    let back = persian_of(g);
    assert(back.tm_year == t.tm_year && back.tm_mon == t.tm_mon && back.tm_mday == t.tm_mday);
    assert(back.tm_wday == t.tm_wday);
    assert(back.tm_yday == t.tm_yday);
}

} // verus!
