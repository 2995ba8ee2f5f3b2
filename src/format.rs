//! Rendering a Persian time through a template of tokens.

use vstd::prelude::*;

use crate::text::{
    chars_of, decimal, decimal2, decimal2_chars, decimal_chars, replace_all, replace_all_chars,
    string_of,
};
use crate::tm::Tm;

verus! {

/// The Persian name of the month `m` (0 = Farvardin).
pub open spec fn month_name(m: int) -> Seq<char> {
    if m == 0 {
        "فروردین"@
    } else if m == 1 {
        "اردیبهشت"@
    } else if m == 2 {
        "خرداد"@
    } else if m == 3 {
        "تیر"@
    } else if m == 4 {
        "مرداد"@
    } else if m == 5 {
        "شهریور"@
    } else if m == 6 {
        "مهر"@
    } else if m == 7 {
        "آبان"@
    } else if m == 8 {
        "آذر"@
    } else if m == 9 {
        "دی"@
    } else if m == 10 {
        "بهمن"@
    } else {
        "اسفند"@
    }
}

/// The Persian name of the weekday `w` (0 = Shanbeh).
pub open spec fn weekday_name(w: int) -> Seq<char> {
    if w == 0 {
        "شنبه"@
    } else if w == 1 {
        "یک‌شنبه"@
    } else if w == 2 {
        "دوشنبه"@
    } else if w == 3 {
        "سه‌شنبه"@
    } else if w == 4 {
        "چهارشنبه"@
    } else if w == 5 {
        "پنج‌شنبه"@
    } else {
        "جمعه"@
    }
}

/// The one-letter Persian name of the weekday `w` (0 = Shanbeh).
pub open spec fn weekday_short_name(w: int) -> Seq<char> {
    if w == 0 {
        "ش"@
    } else if w == 1 {
        "ی"@
    } else if w == 2 {
        "د"@
    } else if w == 3 {
        "س"@
    } else if w == 4 {
        "چ"@
    } else if w == 5 {
        "پ"@
    } else {
        "ج"@
    }
}

/// The Persian marker of the half of the day.
pub open spec fn half_day_name(hour: int) -> Seq<char> {
    if hour < 12 {
        "قبل از ظهر"@
    } else {
        "بعد از ظهر"@
    }
}

/// The short Persian marker of the half of the day.
pub open spec fn half_day_short_name(hour: int) -> Seq<char> {
    if hour < 12 {
        "ق.ظ"@
    } else {
        "ب.ظ"@
    }
}

/// `s` without its first two characters.
pub open spec fn drop_two(s: Seq<char>) -> Seq<char> {
    if s.len() >= 2 {
        s.subrange(2, s.len() as int)
    } else {
        Seq::empty()
    }
}

/// The hour on a twelve-hour clock, from 0 to 11.
pub open spec fn hour12(hour: int) -> int {
    if hour > 11 {
        hour - 12
    } else {
        hour
    }
}

/// The template `f` with its tokens replaced by the fields of `t`, one
/// token after the other, longer tokens of a letter before shorter ones.
pub open spec fn formatted(t: Tm, f: Seq<char>) -> Seq<char> {
    let year = decimal(t.tm_year as int);
    let s = replace_all(f, "yyyy"@, year);
    let s = replace_all(s, "yyy"@, year);
    let s = replace_all(s, "yy"@, drop_two(year));
    let s = replace_all(s, "y"@, year);
    let s = replace_all(s, "MMM"@, month_name(t.tm_mon as int));
    let s = replace_all(s, "MM"@, decimal2(t.tm_mon + 1));
    let s = replace_all(s, "M"@, decimal(t.tm_mon + 1));
    let s = replace_all(s, "DD"@, decimal(t.tm_yday + 1));
    let s = replace_all(s, "D"@, decimal(t.tm_yday as int));
    let s = replace_all(s, "dd"@, decimal2(t.tm_mday as int));
    let s = replace_all(s, "d"@, decimal(t.tm_mday as int));
    let s = replace_all(s, "E"@, weekday_name(t.tm_wday as int));
    let s = replace_all(s, "e"@, weekday_short_name(t.tm_wday as int));
    let s = replace_all(s, "A"@, half_day_name(t.tm_hour as int));
    let s = replace_all(s, "a"@, half_day_short_name(t.tm_hour as int));
    let s = replace_all(s, "HH"@, decimal2(t.tm_hour as int));
    let s = replace_all(s, "H"@, decimal(t.tm_hour as int));
    let s = replace_all(s, "kk"@, decimal2(t.tm_hour + 1));
    let s = replace_all(s, "k"@, decimal(t.tm_hour + 1));
    let s = replace_all(s, "hh"@, decimal2(hour12(t.tm_hour as int) + 1));
    let s = replace_all(s, "h"@, decimal(hour12(t.tm_hour as int) + 1));
    let s = replace_all(s, "KK"@, decimal2(hour12(t.tm_hour as int)));
    let s = replace_all(s, "K"@, decimal(hour12(t.tm_hour as int)));
    let s = replace_all(s, "mm"@, decimal2(t.tm_min as int));
    let s = replace_all(s, "m"@, decimal(t.tm_min as int));
    let s = replace_all(s, "ns"@, decimal(t.tm_nsec as int));
    let s = replace_all(s, "ss"@, decimal2(t.tm_sec as int));
    replace_all(s, "s"@, decimal(t.tm_sec as int))
}

fn month_name_str(m: i32) -> (r: &'static str)
    requires
        0 <= m <= 11,
    ensures
        r@ == month_name(m as int),
{
    match m {
        0 => "فروردین",
        1 => "اردیبهشت",
        2 => "خرداد",
        3 => "تیر",
        4 => "مرداد",
        5 => "شهریور",
        6 => "مهر",
        7 => "آبان",
        8 => "آذر",
        9 => "دی",
        10 => "بهمن",
        _ => "اسفند",
    }
}

fn weekday_name_str(w: i32) -> (r: &'static str)
    requires
        0 <= w <= 6,
    ensures
        r@ == weekday_name(w as int),
{
    match w {
        0 => "شنبه",
        1 => "یک‌شنبه",
        2 => "دوشنبه",
        3 => "سه‌شنبه",
        4 => "چهارشنبه",
        5 => "پنج‌شنبه",
        _ => "جمعه",
    }
}

fn weekday_short_name_str(w: i32) -> (r: &'static str)
    requires
        0 <= w <= 6,
    ensures
        r@ == weekday_short_name(w as int),
{
    match w {
        0 => "ش",
        1 => "ی",
        2 => "د",
        3 => "س",
        4 => "چ",
        5 => "پ",
        _ => "ج",
    }
}

/// The characters of `s` after its first two.
fn drop_two_chars(s: &Vec<char>) -> (r: Vec<char>)
    ensures
        r@ == drop_two(s@),
{
    let mut r: Vec<char> = Vec::new();
    if s.len() < 2 {
        return r;
    }
    let mut i: usize = 2;
    while i < s.len()
        invariant
            2 <= i <= s@.len(),
            r@ == s@.subrange(2, i as int),
        decreases s@.len() - i,
    {
        r.push(s[i]);
        i = i + 1;
        assert(r@ =~= s@.subrange(2, i as int));
    }
    r
}

/// Replaces every occurrence of the token `pat` in `s` by `rep`.
fn substitute(s: Vec<char>, pat: &str, rep: &Vec<char>) -> (r: Vec<char>)
    ensures
        r@ == replace_all(s@, pat@, rep@),
{
    replace_all_chars(&s, &chars_of(pat), rep)
}

impl Tm {
    /// The time written through the template `format`, whose tokens stand
    /// for its fields:
    /// `yyyy`, `yyy`, `y` the year; `yy` the year without its first two
    /// digits; `MMM` the month's Persian name; `MM`, `M` the month from 1,
    /// padded to two digits or not; `DD` the day of the year from 1; `D`
    /// the day of the year from 0; `dd`, `d` the day of the month; `E`,
    /// `e` the weekday's Persian name, full or in one letter; `A`, `a` the
    /// Persian marker of the half of the day, full or short; `HH`, `H` the
    /// hour from 0 to 23; `kk`, `k` the hour from 1 to 24; `hh`, `h` the
    /// hour from 1 to 12; `KK`, `K` the hour from 0 to 11; `mm`, `m` the
    /// minutes; `ns` the nanoseconds; `ss`, `s` the seconds.
    pub fn to_string(&self, format: &str) -> (r: String)
        requires
            0 <= self.tm_mon <= 11,
            0 <= self.tm_wday <= 6,
        ensures
            r@ == formatted(*self, format@),
    {
        let year = decimal_chars(self.tm_year as i64);
        let hour = self.tm_hour as i64;
        let h12 = if hour > 11 {
            hour - 12
        } else {
            hour
        };
        let s = chars_of(format);
        let s = substitute(s, "yyyy", &year);
        let s = substitute(s, "yyy", &year);
        let s = substitute(s, "yy", &drop_two_chars(&year));
        let s = substitute(s, "y", &year);
        let s = substitute(s, "MMM", &chars_of(month_name_str(self.tm_mon)));
        let s = substitute(s, "MM", &decimal2_chars(self.tm_mon as i64 + 1));
        let s = substitute(s, "M", &decimal_chars(self.tm_mon as i64 + 1));
        let s = substitute(s, "DD", &decimal_chars(self.tm_yday as i64 + 1));
        let s = substitute(s, "D", &decimal_chars(self.tm_yday as i64));
        let s = substitute(s, "dd", &decimal2_chars(self.tm_mday as i64));
        let s = substitute(s, "d", &decimal_chars(self.tm_mday as i64));
        let s = substitute(s, "E", &chars_of(weekday_name_str(self.tm_wday)));
        let s = substitute(s, "e", &chars_of(weekday_short_name_str(self.tm_wday)));
        let half = if hour < 12 {
            "قبل از ظهر"
        } else {
            "بعد از ظهر"
        };
        let s = substitute(s, "A", &chars_of(half));
        let half_short = if hour < 12 {
            "ق.ظ"
        } else {
            "ب.ظ"
        };
        let s = substitute(s, "a", &chars_of(half_short));
        let s = substitute(s, "HH", &decimal2_chars(hour));
        let s = substitute(s, "H", &decimal_chars(hour));
        let s = substitute(s, "kk", &decimal2_chars(hour + 1));
        let s = substitute(s, "k", &decimal_chars(hour + 1));
        let s = substitute(s, "hh", &decimal2_chars(h12 + 1));
        let s = substitute(s, "h", &decimal_chars(h12 + 1));
        let s = substitute(s, "KK", &decimal2_chars(h12));
        let s = substitute(s, "K", &decimal_chars(h12));
        let s = substitute(s, "mm", &decimal2_chars(self.tm_min as i64));
        let s = substitute(s, "m", &decimal_chars(self.tm_min as i64));
        let s = substitute(s, "ns", &decimal_chars(self.tm_nsec as i64));
        let s = substitute(s, "ss", &decimal2_chars(self.tm_sec as i64));
        let s = substitute(s, "s", &decimal_chars(self.tm_sec as i64));
        string_of(&s)
    }

    /// The time written as `yyyy-MM-ddTHH:mm:ss.ns`.
    pub fn display_string(&self) -> (r: String)
        requires
            0 <= self.tm_mon <= 11,
            0 <= self.tm_wday <= 6,
        ensures
            r@ == formatted(*self, "yyyy-MM-ddTHH:mm:ss.ns"@),
    {
        self.to_string("yyyy-MM-ddTHH:mm:ss.ns")
    }
}

} // verus!
