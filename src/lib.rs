//! Conversion between the Persian (Solar Hijri) and Gregorian calendars,
//! with the Julian Day Number as the common pivot.
//!
//! A Persian time ([`Tm`]) is built from validated components, or from a
//! Gregorian broken-down time ([`GregorianTm`]) or a moment ([`Timespec`]);
//! it converts back to the Gregorian calendar, to a moment, and renders
//! through a template of tokens.

pub mod arith;
pub mod calendar;
pub mod clock;
pub mod format;
pub mod julian;
pub mod leap;
pub mod text;
pub mod tm;

pub use clock::{at, at_utc, now, now_utc, Duration, Timespec};
pub use leap::{divider, is_gregorian_leap, is_persian_leap};
pub use tm::{
    empty_tm, from_gregorian, from_gregorian_components, from_gregorian_date,
    from_persian_components, from_persian_date, GregorianTm, Tm,
};
