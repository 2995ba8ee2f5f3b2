//! Absolute time: timestamps, durations, and the broken-down times that
//! the system's time library gives for them.

use std::cmp::Ordering;

use vstd::prelude::*;

use crate::arith::{lemma_trunc_floor, tdiv};
use crate::calendar::{gregorian_date_valid, gregorian_days_before, persian_weekday, persian_yday};
use crate::julian::{
    after_reform, floor_div, gregorian_jdn, gregorian_to_jdn, jdn_persian_day, jdn_persian_month,
    jdn_persian_year, jdn_to_persian_year, lemma_jdn_to_persian, lemma_persian_year_bound, persian_convertible, persian_to_jdn, UNIX_EPOCH_JDN,
};
use crate::leap::gregorian_leap;
use crate::tm::{
    from_gregorian, gregorian_tm_jdn, jdn_persian_weekday, persian_at_jdn, persian_of,
    tm_fields_in_range, tm_jdn, GregorianTm, Tm,
};

verus! {

/// A moment as seconds and nanoseconds since 1970-01-01 00:00:00 UTC.
#[derive(Copy, Clone, Debug, Hash, PartialEq, Eq, Structural)]
pub struct Timespec {
    /// Whole seconds.
    pub sec: i64,
    /// Nanoseconds after `sec`.
    pub nsec: i32,
}

/// A span of time: whole seconds and the nanoseconds after them, the
/// nanoseconds kept in `[0, 10^9)`.
#[derive(Copy, Clone, Debug, Hash, PartialEq, Eq, Structural)]
pub struct Duration {
    /// Whole seconds, rounded toward negative infinity.
    pub secs: i64,
    /// Nanoseconds after `secs`.
    pub nanos: i32,
}

impl Duration {
    /// The span in nanoseconds.
    pub open spec fn total_nanos(&self) -> int {
        self.secs * 1_000_000_000 + self.nanos
    }

    /// The nanoseconds lie in their range.
    pub open spec fn wf(&self) -> bool {
        0 <= self.nanos < 1_000_000_000
    }

    /// A span of `seconds` whole seconds.
    pub fn seconds(seconds: i64) -> (r: Duration)
        ensures
            r.wf(),
            r.total_nanos() == seconds * 1_000_000_000,
    {
        Duration { secs: seconds, nanos: 0 }
    }

    /// The span in whole seconds, rounded toward negative infinity.
    pub fn num_seconds(&self) -> (r: i64)
        requires
            self.wf(),
        ensures
            r == self.total_nanos() / 1_000_000_000,
    {
        self.secs
    }

    /// A span of `nanos` nanoseconds.
    pub fn from_nanos(nanos: i128) -> (r: Duration)
        requires
            i64::MIN * 1_000_000_000 + 1_000_000_000 <= nanos <= i64::MAX * 1_000_000_000,
        ensures
            r.wf(),
            r.total_nanos() == nanos,
    {
        let q = nanos / 1_000_000_000;
        let m = nanos % 1_000_000_000;
        proof {
            lemma_trunc_floor(nanos as int, 1_000_000_000);
        }
        if m < 0 {
            Duration { secs: (q - 1) as i64, nanos: (m + 1_000_000_000) as i32 }
        } else {
            Duration { secs: q as i64, nanos: m as i32 }
        }
    }

    /// The span in nanoseconds.
    pub fn as_nanos(&self) -> (r: i128)
        ensures
            r == self.total_nanos(),
    {
        self.secs as i128 * 1_000_000_000 + self.nanos as i128
    }
}

/// Days from 1970-01-01 to the proleptic Gregorian date `year`, `month`
/// (1 to 12), `day`.
pub open spec fn days_from_civil(year: int, month: int, day: int) -> int {
    let a: int = if month <= 2 { 1 } else { 0 };
    let y = year + 4800 - a;
    let m = month + 12 * a - 3;
    day + (153 * m + 2) / 5 + 365 * y + y / 4 - y / 100 + y / 400 - 32045 - 2440588
}

/// `g` is the broken-down UTC time, in the proleptic Gregorian calendar,
/// of `sec` seconds and `nsec` nanoseconds after the Unix epoch.
pub open spec fn is_utc_breakdown(g: GregorianTm, sec: int, nsec: int) -> bool {
    let days = sec / 86400;
    &&& gregorian_date_valid(g.tm_year + 1900, g.tm_mon as int, g.tm_mday as int)
    &&& days_from_civil(g.tm_year + 1900, g.tm_mon + 1, g.tm_mday as int) == days
    &&& g.tm_hour == (sec % 86400) / 3600
    &&& g.tm_min == (sec % 3600) / 60
    &&& g.tm_sec == sec % 60
    &&& g.tm_wday == (days + 4) % 7
    &&& g.tm_yday == gregorian_days_before(g.tm_mon as int, gregorian_leap(g.tm_year + 1900))
        + g.tm_mday - 1
    &&& g.tm_isdst == 0
    &&& g.tm_utcoff == 0
    &&& g.tm_nsec == nsec
}

/// `g` is a broken-down local time of `sec` seconds and `nsec`
/// nanoseconds after the Unix epoch: its fields lie in their ranges and,
/// read as UTC less its offset, give the moment to within a day.
pub open spec fn is_local_breakdown(g: GregorianTm, sec: int, nsec: int) -> bool {
    let local = days_from_civil(g.tm_year + 1900, g.tm_mon + 1, g.tm_mday as int) * 86400
        + g.tm_hour * 3600 + g.tm_min * 60 + g.tm_sec;
    &&& -86400 <= local - g.tm_utcoff - sec <= 86400
    &&& gregorian_date_valid(g.tm_year + 1900, g.tm_mon as int, g.tm_mday as int)
    &&& 0 <= g.tm_hour <= 23
    &&& 0 <= g.tm_min <= 59
    &&& 0 <= g.tm_sec <= 60
    &&& 0 <= g.tm_wday <= 6
    &&& 0 <= g.tm_yday <= 365
    &&& g.tm_nsec == nsec
}

/// Bound on the seconds of a timestamp that the broken-down conversions
/// take: the year then fits a C `int`.
pub open spec fn sec_in_range(sec: int) -> bool {
    -1_000_000_000_000_000 <= sec <= 1_000_000_000_000_000
}

/// Relies on time::at_utc, which fills the fields from the C library's
/// `gmtime_r` (it panics where that fails, beyond the years of a C `int`)
/// and copies the nanoseconds.
#[verifier::external_body]
pub(crate) fn utc_breakdown(sec: i64, nsec: i32) -> (r: GregorianTm)
    requires
        sec_in_range(sec as int),
    ensures
        is_utc_breakdown(r, sec as int, nsec as int),
{
    let t = time::at_utc(time::Timespec { sec, nsec });
    GregorianTm {
        tm_sec: t.tm_sec,
        tm_min: t.tm_min,
        tm_hour: t.tm_hour,
        tm_mday: t.tm_mday,
        tm_mon: t.tm_mon,
        tm_year: t.tm_year,
        tm_wday: t.tm_wday,
        tm_yday: t.tm_yday,
        tm_isdst: t.tm_isdst,
        tm_utcoff: t.tm_utcoff,
        tm_nsec: t.tm_nsec,
    }
}

/// Relies on time::at, which fills the fields from the C library's
/// `localtime_r` in the machine's time zone (it panics where that fails,
/// beyond the years of a C `int`), sets the offset from its `tm_gmtoff`,
/// the local time's seconds east of UTC, and copies the nanoseconds. Zones
/// that count leap seconds move the fields by those seconds, well within
/// a day.
#[verifier::external_body]
pub(crate) fn local_breakdown(sec: i64, nsec: i32) -> (r: GregorianTm)
    requires
        sec_in_range(sec as int),
    ensures
        is_local_breakdown(r, sec as int, nsec as int),
{
    let t = time::at(time::Timespec { sec, nsec });
    GregorianTm {
        tm_sec: t.tm_sec,
        tm_min: t.tm_min,
        tm_hour: t.tm_hour,
        tm_mday: t.tm_mday,
        tm_mon: t.tm_mon,
        tm_year: t.tm_year,
        tm_wday: t.tm_wday,
        tm_yday: t.tm_yday,
        tm_isdst: t.tm_isdst,
        tm_utcoff: t.tm_utcoff,
        tm_nsec: t.tm_nsec,
    }
}

/// Relies on time::get_time: the system clock as seconds and nanoseconds
/// since the Unix epoch, the nanoseconds checked by `Timespec::new` to lie
/// in `[0, 10^9)`.
#[verifier::external_body]
pub(crate) fn clock_now() -> (r: (i64, i32))
    ensures
        0 <= r.1 < 1_000_000_000,
{
    let t = time::get_time();
    (t.sec, t.nsec)
}

/// From the Gregorian reform on, the reform-aware day number is the
/// proleptic Gregorian day count shifted to the Julian Day epoch.
pub proof fn lemma_gregorian_jdn_civil(year: int, month: int, day: int)
    requires
        1 <= month <= 12,
        after_reform(year, month, day),
    ensures
        gregorian_jdn(year, month, day) == days_from_civil(year, month, day) + 2440588,
{
    let a: int = if month <= 2 { 1 } else { 0 };
    let y = year + 4800 - a;
    assert(tdiv(month - 14, 12) == -a);
    assert(y > 0);
    assert(tdiv(1461 * y, 4) == 365 * y + y / 4) by {
        vstd::arithmetic::div_mod::lemma_fundamental_div_mod(y, 4);
        vstd::arithmetic::div_mod::lemma_fundamental_div_mod_converse(
            1461 * y,
            4,
            365 * y + y / 4,
            y % 4,
        );
    }
    assert(tdiv(367 * (month - 2 + 12 * a), 12) == (153 * (month + 12 * a - 3) + 2) / 5
        + 30) by {
        assert(1 <= month <= 12);
        if month == 1 {} else if month == 2 {} else if month == 3 {} else if month == 4 {
        } else if month == 5 {} else if month == 6 {} else if month == 7 {} else if month == 8 {
        } else if month == 9 {} else if month == 10 {} else if month == 11 {} else {}
    }
    let q = y / 400;
    let r = y % 400;
    vstd::arithmetic::div_mod::lemma_fundamental_div_mod(y, 400);
    assert(tdiv(y + 100, 100) == 4 * q + (r + 100) / 100) by {
        vstd::arithmetic::div_mod::lemma_fundamental_div_mod_converse(
            y + 100,
            100,
            4 * q + (r + 100) / 100,
            (r + 100) % 100,
        );
    }
    assert(y / 100 == 4 * q + r / 100) by {
        vstd::arithmetic::div_mod::lemma_fundamental_div_mod_converse(
            y,
            100,
            4 * q + r / 100,
            r % 100,
        );
    }
    assert(tdiv(3 * tdiv(y + 100, 100), 4) == y / 100 - y / 400) by {
        vstd::arithmetic::div_mod::lemma_fundamental_div_mod_converse(
            3 * (4 * q + (r + 100) / 100),
            4,
            3 * q + r / 100,
            3 - r / 100,
        );
    }
}

/// A timestamp that the conversion to a Persian time takes: within the
/// bound of the broken-down conversion, where every Persian year fits an
/// `i32`.
pub open spec fn utc_in_range(sec: int) -> bool {
    sec_in_range(sec)
}

/// The Persian time in UTC of a moment, where the conversion takes it.
pub open spec fn persian_at_checked(sec: int, nsec: int) -> Option<Tm> {
    if utc_in_range(sec) {
        Some(persian_at(sec, nsec))
    } else {
        None
    }
}

/// `r` is what the conversion in the machine's time zone gives for `sec`
/// seconds and `nsec` nanoseconds: `None` beyond the bound of the
/// broken-down conversion, else the conversion of a local broken-down
/// time of the moment, which always succeeds.
pub open spec fn local_result(sec: int, nsec: int, r: Option<Tm>) -> bool {
    &&& !sec_in_range(sec) ==> r is None
    &&& sec_in_range(sec) ==> r is Some && exists|g: GregorianTm|
        is_local_breakdown(g, sec, nsec) && r == #[trigger] local_persian(g)
}

/// The Persian time of a local broken-down time, where the conversion
/// takes its date.
pub open spec fn local_persian(g: GregorianTm) -> Option<Tm> {
    if persian_convertible(gregorian_tm_jdn(g)) {
        Some(persian_of(g))
    } else {
        None
    }
}

/// The Persian time, in UTC, of `sec` seconds and `nsec` nanoseconds
/// since the Unix epoch.
pub open spec fn persian_at(sec: int, nsec: int) -> Tm {
    let jdn = sec / 86400 + UNIX_EPOCH_JDN;
    let month = jdn_persian_month(jdn);
    let day = jdn_persian_day(jdn);
    Tm {
        tm_sec: (sec % 60) as i32,
        tm_min: ((sec % 3600) / 60) as i32,
        tm_hour: ((sec % 86400) / 3600) as i32,
        tm_mday: day as i32,
        tm_mon: month as i32,
        tm_year: jdn_persian_year(jdn) as i32,
        tm_wday: jdn_persian_weekday(jdn) as i32,
        tm_yday: persian_yday(month, day) as i32,
        tm_isdst: 0,
        tm_utcoff: 0,
        tm_nsec: nsec as i32,
    }
}

/// Seconds since the Unix epoch of a Persian time, its fields read in the
/// time zone that its offset names.
pub open spec fn instant_sec(t: Tm) -> int {
    (tm_jdn(t) - UNIX_EPOCH_JDN) * 86400 + t.tm_hour * 3600 + t.tm_min * 60 + t.tm_sec
        - t.tm_utcoff
}

/// Nanoseconds since the Unix epoch of a Persian time.
pub open spec fn instant_nanos(t: Tm) -> int {
    instant_sec(t) * 1_000_000_000 + t.tm_nsec
}

/// The Persian time of a moment lies on that moment, with its
/// nanoseconds: what `to_utc`, `add_duration` and `sub_duration` return
/// keeps the moment, or moves it by exactly the duration.
#[verifier::rlimit(100)]
pub proof fn lemma_persian_at_instant(sec: int, nsec: i32)
    requires
        utc_in_range(sec),
    ensures
        instant_sec(persian_at(sec, nsec as int)) == sec,
        persian_at(sec, nsec as int).tm_nsec == nsec,
{
    let jdn = sec / 86400 + UNIX_EPOCH_JDN;
    lemma_persian_year_bound(jdn);
    lemma_jdn_to_persian(jdn);
    lemma_time_of_day(sec);
    let t = persian_at(sec, nsec as int);
    assert(tm_jdn(t) == jdn);
    assert(t.tm_hour == (sec % 86400) / 3600);
    assert(t.tm_min == (sec % 3600) / 60);
    assert(t.tm_sec == sec % 60);
}

/// A moment splits into its day, hour, minute and second.
proof fn lemma_time_of_day(sec: int)
    ensures
        sec == (sec / 86400) * 86400 + ((sec % 86400) / 3600) * 3600 + ((sec % 3600) / 60) * 60
            + sec % 60,
        0 <= (sec % 86400) / 3600 < 24,
        0 <= (sec % 3600) / 60 < 60,
        0 <= sec % 60 < 60,
{
    let r = sec % 86400;
    vstd::arithmetic::div_mod::lemma_fundamental_div_mod(sec, 86400);
    vstd::arithmetic::div_mod::lemma_fundamental_div_mod(sec, 3600);
    vstd::arithmetic::div_mod::lemma_fundamental_div_mod(sec, 60);
    vstd::arithmetic::div_mod::lemma_fundamental_div_mod(r, 3600);
    vstd::arithmetic::div_mod::lemma_fundamental_div_mod(sec % 3600, 60);
    assert(sec % 3600 == r % 3600) by {
        vstd::arithmetic::div_mod::lemma_mod_mod(sec, 3600, 24);
    }
    assert(sec % 60 == (sec % 3600) % 60) by {
        vstd::arithmetic::div_mod::lemma_mod_mod(sec, 60, 60);
    }
}

/// Julian Day Number of the proleptic Gregorian date `year`, `month`
/// (1 to 12), `day`.
fn civil_day_number(year: i64, month: i64, day: i64) -> (r: i64)
    requires
        -10_000_000_000 <= year <= 10_000_000_000,
        1 <= month <= 12,
        1 <= day <= 31,
    ensures
        r == days_from_civil(year as int, month as int, day as int) + UNIX_EPOCH_JDN,
{
    let a: i64 = if month <= 2 {
        1
    } else {
        0
    };
    let y = year + 4800 - a;
    let m = month + 12 * a - 3;
    day + (153 * m + 2) / 5 + 365 * y + floor_div(y, 4) - floor_div(y, 100) + floor_div(y, 400)
        - 32045
}

/// The Persian time in UTC of a moment.
pub fn at_utc(clock: Timespec) -> (r: Tm)
    requires
        utc_in_range(clock.sec as int),
    ensures
        r == persian_at(clock.sec as int, clock.nsec as int),
        tm_fields_in_range(r),
{
    let g = utc_breakdown(clock.sec, clock.nsec);
    let jdn = civil_day_number(g.tm_year as i64 + 1900, g.tm_mon as i64 + 1, g.tm_mday as i64);
    proof {
        let days = clock.sec / 86400;
        assert(jdn == days + UNIX_EPOCH_JDN);
        lemma_persian_year_bound(jdn as int);
        assert(persian_weekday(g.tm_wday as int) == jdn_persian_weekday(jdn as int)) by {
            assert(((days + 4) % 7 + 1) % 7 == (days + 2440590) % 7) by (nonlinear_arith);
        }
    }
    let r = persian_at_jdn(jdn, &g);
    proof {
        let p = persian_at(clock.sec as int, clock.nsec as int);
        assert(r.tm_wday == p.tm_wday);
        assert(r.tm_hour == p.tm_hour && r.tm_min == p.tm_min && r.tm_sec == p.tm_sec);
    }
    r
}

/// The Persian time in UTC of a moment: `None` where the conversion does
/// not take the moment.
pub fn at_utc_checked(clock: Timespec) -> (r: Option<Tm>)
    ensures
        r == persian_at_checked(clock.sec as int, clock.nsec as int),
{
    if clock.sec < -1_000_000_000_000_000 || clock.sec > 1_000_000_000_000_000 {
        return None;
    }
    Some(at_utc(clock))
}

/// The Persian time of a local broken-down time: `None` where the Persian
/// year of its date would not fit an `i32`.
pub fn persian_of_local(g: GregorianTm) -> (r: Option<Tm>)
    requires
        0 <= g.tm_mon <= 11,
        1 <= g.tm_mday <= 31,
        0 <= g.tm_wday <= 6,
    ensures
        r == local_persian(g),
{
    let jdn = gregorian_to_jdn(g.tm_year as i64 + 1900, g.tm_mon as i64 + 1, g.tm_mday as i64);
    if jdn < -1_000_000_000_000 || jdn > 1_000_000_000_000 {
        return None;
    }
    let year = jdn_to_persian_year(jdn);
    if year < i32::MIN as i64 || year > i32::MAX as i64 {
        return None;
    }
    Some(from_gregorian(g))
}

/// The Persian time in the machine's time zone of a moment: the local
/// broken-down time that the time library gives, converted by
/// [`persian_of_local`]; `None` beyond the bound of that conversion.
pub fn at(clock: Timespec) -> (r: Option<Tm>)
    ensures
        local_result(clock.sec as int, clock.nsec as int, r),
{
    if clock.sec < -1_000_000_000_000_000 || clock.sec > 1_000_000_000_000_000 {
        return None;
    }
    let g = local_breakdown(clock.sec, clock.nsec);
    proof {
        lemma_local_convertible(g, clock.sec as int, clock.nsec as int);
    }
    persian_of_local(g)
}

/// The date of a local broken-down time of a moment within the bound has
/// a Persian year that fits an `i32`.
proof fn lemma_local_convertible(g: GregorianTm, sec: int, nsec: int)
    requires
        is_local_breakdown(g, sec, nsec),
        sec_in_range(sec),
    ensures
        persian_convertible(gregorian_tm_jdn(g)),
{
    let y = g.tm_year + 1900;
    let days = days_from_civil(y, g.tm_mon + 1, g.tm_mday as int);
    assert(-12_000_000_000 <= days <= 12_000_000_000);
    assert(-40_000_000 <= y <= 40_000_000);
    assert(-20_000_000_000 <= gregorian_tm_jdn(g) <= 20_000_000_000);
    lemma_persian_year_bound(gregorian_tm_jdn(g));
}

/// The current time in UTC, converted by [`at_utc_checked`].
pub fn now_utc() -> (r: Option<Tm>)
    ensures
        exists|sec: int, nsec: int|
            0 <= nsec < 1_000_000_000 && r == #[trigger] persian_at_checked(sec, nsec),
{
    let (sec, nsec) = clock_now();
    at_utc_checked(Timespec { sec, nsec })
}

/// The current time in the machine's time zone, converted by [`at`].
pub fn now() -> (r: Option<Tm>)
    ensures
        exists|sec: int, nsec: int|
            0 <= nsec < 1_000_000_000 && #[trigger] local_result(sec, nsec, r),
{
    let (sec, nsec) = clock_now();
    at(Timespec { sec, nsec })
}

impl Tm {
    /// The moment as seconds and nanoseconds since the Unix epoch; the
    /// fields are read in the time zone that the offset names.
    pub fn to_timespec(&self) -> (r: Timespec)
        ensures
            r.sec == instant_sec(*self),
            r.nsec == self.tm_nsec,
            -100_000_000_000_000_000 <= r.sec <= 100_000_000_000_000_000,
    {
        let jdn = persian_to_jdn(self.tm_year as i64, self.tm_mon as i64 + 1, self.tm_mday as i64);
        let sec = (jdn - UNIX_EPOCH_JDN) * 86400 + self.tm_hour as i64 * 3600 + self.tm_min as i64
            * 60 + self.tm_sec as i64 - self.tm_utcoff as i64;
        Timespec { sec, nsec: self.tm_nsec }
    }

    /// The same moment in UTC: the time itself where its offset is zero.
    pub fn to_utc(&self) -> (r: Tm)
        requires
            self.tm_utcoff != 0 ==> utc_in_range(instant_sec(*self)),
        ensures
            self.tm_utcoff == 0 ==> r == *self,
            self.tm_utcoff != 0 ==> r == persian_at(instant_sec(*self), self.tm_nsec as int),
    {
        if self.tm_utcoff == 0 {
            *self
        } else {
            at_utc(self.to_timespec())
        }
    }

    /// The same moment in the machine's time zone, from a time in UTC,
    /// as [`at`] gives it; a time with an offset is returned as it is.
    pub fn to_local(&self) -> (r: Option<Tm>)
        ensures
            self.tm_utcoff != 0 ==> r == Some(*self),
            self.tm_utcoff == 0 ==> local_result(instant_sec(*self), self.tm_nsec as int, r),
    {
        if self.tm_utcoff == 0 {
            at(self.to_timespec())
        } else {
            Some(*self)
        }
    }

    /// The span from `other` to this time.
    pub fn since(&self, other: &Tm) -> (r: Duration)
        ensures
            r.wf(),
            r.total_nanos() == instant_nanos(*self) - instant_nanos(*other),
    {
        let a = self.to_timespec();
        let b = other.to_timespec();
        let n = (a.sec as i128 - b.sec as i128) * 1_000_000_000 + (a.nsec as i128 - b.nsec as i128);
        Duration::from_nanos(n)
    }

    /// This time moved later by `d`, in UTC.
    pub fn add_duration(&self, d: Duration) -> (r: Tm)
        requires
            d.wf(),
            utc_in_range((instant_nanos(*self) + d.total_nanos()) / 1_000_000_000),
        ensures
            r == persian_at(
                (instant_nanos(*self) + d.total_nanos()) / 1_000_000_000,
                (instant_nanos(*self) + d.total_nanos()) % 1_000_000_000,
            ),
    {
        let a = self.to_timespec();
        let n = a.sec as i128 * 1_000_000_000 + a.nsec as i128 + d.as_nanos();
        let t = Duration::from_nanos(n);
        at_utc(Timespec { sec: t.secs, nsec: t.nanos })
    }

    /// This time moved earlier by `d`, in UTC.
    pub fn sub_duration(&self, d: Duration) -> (r: Tm)
        requires
            d.wf(),
            utc_in_range((instant_nanos(*self) - d.total_nanos()) / 1_000_000_000),
        ensures
            r == persian_at(
                (instant_nanos(*self) - d.total_nanos()) / 1_000_000_000,
                (instant_nanos(*self) - d.total_nanos()) % 1_000_000_000,
            ),
    {
        let a = self.to_timespec();
        let n = a.sec as i128 * 1_000_000_000 + a.nsec as i128 - d.as_nanos();
        let t = Duration::from_nanos(n);
        at_utc(Timespec { sec: t.secs, nsec: t.nanos })
    }

    /// Orders two times by their moments: by seconds since the Unix
    /// epoch, then by nanoseconds.
    pub fn compare(&self, other: &Tm) -> (r: Ordering)
        ensures
            r == Ordering::Less <==> instant_sec(*self) < instant_sec(*other) || (instant_sec(
                *self,
            ) == instant_sec(*other) && self.tm_nsec < other.tm_nsec),
            r == Ordering::Equal <==> instant_sec(*self) == instant_sec(*other) && self.tm_nsec
                == other.tm_nsec,
            r == Ordering::Greater <==> instant_sec(*self) > instant_sec(*other) || (instant_sec(
                *self,
            ) == instant_sec(*other) && self.tm_nsec > other.tm_nsec),
    {
        let a = self.to_timespec();
        let b = other.to_timespec();
        if a.sec < b.sec || (a.sec == b.sec && a.nsec < b.nsec) {
            Ordering::Less
        } else if a.sec == b.sec && a.nsec == b.nsec {
            Ordering::Equal
        } else {
            Ordering::Greater
        }
    }
}

} // verus!
