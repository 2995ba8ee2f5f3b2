use ptime::calendar::{is_gregorian_date_valid, is_persian_date_valid, is_time_valid};
use ptime::julian::fixed_get_jdn;
use ptime::{Duration, Timespec, Tm};
use std::cmp::Ordering;

fn persian(t: &Tm) -> (i32, i32, i32, i32, i32) {
    (t.tm_year, t.tm_mon, t.tm_mday, t.tm_wday, t.tm_yday)
}

#[test]
fn fixed_points_of_2016() {
    let t = ptime::from_gregorian_date(2016, 2, 21).unwrap();
    assert_eq!(persian(&t), (1395, 0, 2, 2, 1));
    let g = t.to_gregorian();
    assert_eq!((g.tm_year, g.tm_mon, g.tm_mday, g.tm_wday, g.tm_yday), (116, 2, 21, 1, 80));

    let t = ptime::from_gregorian_date(2016, 0, 1).unwrap();
    assert_eq!(persian(&t), (1394, 9, 11, 6, 286));
}

#[test]
fn gregorian_round_trip_of_dates() {
    let dates = [
        (2016, 2, 21),
        (2000, 1, 29),
        (1582, 9, 4),
        (1582, 9, 15),
        (1500, 2, 1),
        (1200, 0, 1),
        (2100, 11, 31),
        (1979, 1, 11),
    ];
    for &(y, m, d) in dates.iter() {
        let g = ptime::from_gregorian_date(y, m, d).unwrap().to_gregorian();
        assert_eq!((g.tm_year + 1900, g.tm_mon, g.tm_mday), (y, m, d));
    }
}

#[test]
fn dates_before_the_reform_use_the_julian_calendar() {
    let t = ptime::from_gregorian_date(1500, 2, 1).unwrap();
    assert_eq!(persian(&t), (878, 11, 20, 1, 355));
    let t = ptime::from_gregorian_date(1200, 0, 1).unwrap();
    assert_eq!(persian(&t), (578, 9, 18, 0, 293));
    let t = ptime::from_gregorian_date(1582, 9, 4).unwrap();
    assert_eq!(persian(&t), (961, 6, 22, 5, 207));
    let t = ptime::from_gregorian_date(1582, 9, 15).unwrap();
    assert_eq!(persian(&t), (961, 6, 23, 6, 208));
}

#[test]
fn early_dates_convert() {
    let t = ptime::from_gregorian_date(1000, 0, 1).unwrap();
    assert_eq!(persian(&t), (378, 9, 16, 2, 291));
    let t = ptime::from_gregorian_date(622, 2, 22).unwrap();
    assert_eq!(persian(&t), (1, 0, 4, 2, 3));
    let t = ptime::from_gregorian_date(1, 0, 1).unwrap();
    assert_eq!((t.tm_year, t.tm_mon, t.tm_mday), (-622, 9, 9));
}

#[test]
fn dates_whose_persian_year_overflows_are_refused() {
    assert!(ptime::from_gregorian_date(i32::MAX, 11, 31).is_none());
    assert!(ptime::from_gregorian_date(i32::MIN + 1900, 0, 1).is_none());
    assert!(ptime::from_gregorian_date(2_000_000_000, 0, 1).is_some());
}

#[test]
fn checked_moments() {
    let t = ptime::clock::at_utc_checked(Timespec { sec: 1_458_432_000, nsec: 5 }).unwrap();
    assert_eq!(persian(&t), (1395, 0, 1, 1, 0));
    assert!(ptime::clock::at_utc_checked(Timespec { sec: i64::MAX, nsec: 0 }).is_none());
    assert!(ptime::at(Timespec { sec: i64::MIN, nsec: 0 }).is_none());
    let early = ptime::at_utc(Timespec { sec: -30_610_224_000, nsec: 0 });
    assert_eq!((early.tm_year, early.tm_mon, early.tm_mday), (378, 9, 11));
}

#[test]
fn validation_of_month_ends() {
    assert!(!is_persian_date_valid(1394, 11, 30));
    assert!(is_persian_date_valid(1395, 11, 30));
    assert!(is_persian_date_valid(1394, 11, 29));
    assert!(!is_persian_date_valid(1395, 6, 31));
    assert!(!is_persian_date_valid(1395, 12, 1));
    assert!(!is_persian_date_valid(1395, -1, 1));
    assert!(!is_persian_date_valid(1395, 0, 0));
    assert!(!is_gregorian_date_valid(2015, 1, 29));
    assert!(is_gregorian_date_valid(2016, 1, 29));
    assert!(!is_gregorian_date_valid(1900, 1, 29));
    assert!(is_gregorian_date_valid(2000, 1, 29));
    assert!(!is_gregorian_date_valid(2016, 3, 31));
    assert!(ptime::from_persian_date(1394, 11, 30).is_none());
    assert!(ptime::from_gregorian_date(2015, 1, 29).is_none());
}

#[test]
fn validation_of_time_of_day() {
    assert!(is_time_valid(0, 0, 0, 0));
    assert!(is_time_valid(23, 59, 59, 999_999_999));
    assert!(!is_time_valid(24, 0, 0, 0));
    assert!(!is_time_valid(0, 60, 0, 0));
    assert!(!is_time_valid(0, 0, 60, 0));
    assert!(!is_time_valid(0, 0, 0, 1_000_000_000));
    assert!(!is_time_valid(-1, 0, 0, 0));
    assert!(ptime::from_gregorian_components(2016, 2, 21, 24, 0, 0, 0).is_none());
    assert!(ptime::from_persian_components(1395, 0, 1, 0, -1, 0, 0).is_none());
}

#[test]
fn persian_components_work_out_weekday_and_year_day() {
    let t = ptime::from_persian_components(1395, 11, 30, 23, 59, 58, 7).unwrap();
    assert_eq!(persian(&t), (1395, 11, 30, 2, 365));
    assert_eq!((t.tm_hour, t.tm_min, t.tm_sec, t.tm_nsec), (23, 59, 58, 7));
    let t = ptime::from_persian_date(1395, 6, 1).unwrap();
    assert_eq!(t.tm_yday, 186);
}

#[test]
fn leap_rules() {
    assert!(ptime::is_persian_leap(1399));
    assert!(!ptime::is_persian_leap(1400));
    assert!(ptime::is_persian_leap(-3));
    assert!(!ptime::is_persian_leap(-4));
    assert!(ptime::is_gregorian_leap(2000));
    assert!(!ptime::is_gregorian_leap(1900));
    assert!(ptime::is_gregorian_leap(2016));
    assert!(!ptime::is_gregorian_leap(2015));
}

#[test]
fn floored_remainder() {
    assert_eq!(ptime::divider(-1, 33), 32);
    assert_eq!(ptime::divider(0, 33), 0);
    assert_eq!(ptime::divider(-33, 33), 0);
    assert_eq!(ptime::divider(70, 33), 4);
}

#[test]
fn moments_in_utc() {
    let t = ptime::at_utc(Timespec { sec: 1_458_432_000, nsec: 5 });
    assert_eq!(persian(&t), (1395, 0, 1, 1, 0));
    assert_eq!((t.tm_hour, t.tm_min, t.tm_sec, t.tm_nsec, t.tm_utcoff), (0, 0, 0, 5, 0));
    let t = ptime::at_utc(Timespec { sec: 1_458_432_000 + 3661, nsec: 0 });
    assert_eq!((t.tm_hour, t.tm_min, t.tm_sec), (1, 1, 1));
    let t = ptime::at_utc(Timespec { sec: 0, nsec: 0 });
    assert_eq!(persian(&t), (1348, 9, 11, 5, 286));
    let ts = t.to_timespec();
    assert_eq!((ts.sec, ts.nsec), (0, 0));
}

#[test]
fn offsets_move_the_moment() {
    let mut t = ptime::from_persian_components(1395, 0, 1, 3, 30, 0, 0).unwrap();
    t.tm_utcoff = 12_600;
    let u = t.to_utc();
    assert_eq!(persian(&u), (1395, 0, 1, 1, 0));
    assert_eq!((u.tm_hour, u.tm_min, u.tm_utcoff), (0, 0, 0));
    assert_eq!(t.compare(&u), Ordering::Equal);
    assert_eq!(t.to_local(), Some(t));
    let v = ptime::from_persian_date(1395, 0, 1).unwrap();
    assert_eq!(v.to_utc(), v);
}

#[test]
fn adding_and_subtracting_durations() {
    let t = ptime::from_persian_date(1395, 0, 1).unwrap();
    let next = t.add_duration(Duration::seconds(24 * 3600));
    assert_eq!(persian(&next), (1395, 0, 2, 2, 1));
    let before = t.sub_duration(Duration::seconds(1));
    assert_eq!(persian(&before), (1394, 11, 29, 0, 364));
    assert_eq!((before.tm_hour, before.tm_min, before.tm_sec), (23, 59, 59));
    let d = before.since(&t);
    assert_eq!(d, Duration::seconds(-1));
    assert_eq!(d.num_seconds(), -1);
    assert_eq!(Duration::from_nanos(-1), Duration { secs: -1, nanos: 999_999_999 });
    assert_eq!(t.compare(&before), Ordering::Greater);
    assert_eq!(before.compare(&t), Ordering::Less);
}

#[test]
fn formatting_tokens() {
    let t = ptime::from_persian_components(1395, 0, 2, 13, 5, 7, 42).unwrap();
    assert_eq!(t.to_string("yyyy yyy yy y"), "1395 1395 95 1395");
    assert_eq!(t.to_string("MMM/MM/M"), "فروردین/01/1");
    assert_eq!(t.to_string("DD D dd d"), "2 1 02 2");
    assert_eq!(t.to_string("E e"), "دوشنبه د");
    assert_eq!(t.to_string("A a"), "بعد از ظهر ب.ظ");
    assert_eq!(t.to_string("HH H kk k hh h KK K"), "13 13 14 14 02 2 01 1");
    assert_eq!(t.to_string("mm m ss s ns"), "05 5 07 7 42");
    let m = ptime::from_persian_components(1395, 11, 29, 9, 0, 0, 0).unwrap();
    assert_eq!(m.to_string("MMM E A a"), "اسفند یک‌شنبه قبل از ظهر ق.ظ");
    assert_eq!(m.display_string(), "1395-12-29T09:00:00.0");
}

#[test]
fn formatting_a_year_of_one_digit() {
    let mut t = ptime::empty_tm();
    t.tm_year = 7;
    assert_eq!(t.to_string("yy|y"), "|7");
}

#[test]
fn days_counted_from_the_unix_epoch() {
    assert_eq!(fixed_get_jdn(1348, 286), 0);
    assert_eq!(fixed_get_jdn(1395, 0), 16_880);
    assert_eq!(fixed_get_jdn(1347, 0), -651);
    assert_eq!(fixed_get_jdn(1395, 366), 0);
    assert_eq!(fixed_get_jdn(1395, -1), 0);
}

#[test]
fn persian_round_trip_of_dates() {
    let dates = [(1395, 11, 30), (1395, 0, 1), (1400, 6, 30), (475, 0, 1), (961, 6, 22), (1, 0, 1), (300, 5, 31)];
    for &(y, m, d) in dates.iter() {
        let t = ptime::from_persian_components(y, m, d, 7, 8, 9, 10).unwrap();
        let back = ptime::from_gregorian(t.to_gregorian());
        assert_eq!(back, t);
    }
}

#[test]
fn esfand_30_that_the_cycle_lacks() {
    let t = ptime::from_persian_date(1403, 11, 30).unwrap();
    let back = ptime::from_gregorian(t.to_gregorian());
    assert_eq!((back.tm_year, back.tm_mon, back.tm_mday), (1404, 0, 1));
}

#[test]
fn moving_by_a_duration_moves_the_moment() {
    let t = ptime::from_gregorian_components(1000, 0, 1, 5, 6, 7, 8).unwrap();
    let d = Duration::from_nanos(90_061_000_000_123);
    let later = t.add_duration(d);
    assert_eq!(later.since(&t), d);
    assert_eq!(later.sub_duration(d).since(&t), Duration::seconds(0));
}
