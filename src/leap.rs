//! Leap-year rules of the two calendars.

use vstd::prelude::*;

use crate::arith::{lemma_trunc_floor, trem};

verus! {

/// The Persian leap rule: the 2820-year arithmetic approximation of the
/// 33-year cycle, with a floored remainder so that it also holds for
/// years before the epoch.
pub open spec fn persian_leap(year: int) -> bool {
    (25 * year + 11) % 33 < 8
}

/// The proleptic Gregorian leap rule.
pub open spec fn gregorian_leap(year: int) -> bool {
    year % 4 == 0 && (year % 100 != 0 || year % 400 == 0)
}

/// Remainder of `num` divided by `den`, rounded toward negative infinity,
/// so that it is never negative.
pub fn divider(num: i64, den: i64) -> (r: i64)
    requires
        den > 0,
    ensures
        r == num % den,
        0 <= r < den,
{
    let r = num % den;
    proof {
        lemma_trunc_floor(num as int, den as int);
        assert(r == trem(num as int, den as int));
    }
    if r < 0 {
        r + den
    } else {
        r
    }
}

/// True iff `year` is a leap year of the Persian calendar.
pub fn is_persian_leap(year: i64) -> (r: bool)
    requires
        -10_000_000_000 <= year <= 10_000_000_000,
    ensures
        r == persian_leap(year as int),
{
    divider(25 * year + 11, 33) < 8
}

/// True iff `year` is a leap year of the Gregorian calendar.
pub fn is_gregorian_leap(year: i64) -> (r: bool)
    ensures
        r == gregorian_leap(year as int),
{
    proof {
        lemma_trunc_floor(year as int, 4);
        lemma_trunc_floor(year as int, 100);
        lemma_trunc_floor(year as int, 400);
    }
    year % 4 == 0 && (year % 100 != 0 || year % 400 == 0)
}

} // verus!
