//! Calendar dates, modelled as day counts since 1970-01-01.
//!
//! The arithmetic of the date-producing generators is verified on day
//! counts; only the conversions between day counts and ISO date strings
//! are delegated to the calendar library behind trusted wrappers.

use vstd::prelude::*;

verus! {

/// Smallest day count that names a representable calendar date.
pub const DATE_DAYS_MIN: i64 = -96_465_292;

/// Largest day count that names a representable calendar date.
pub const DATE_DAYS_MAX: i64 = 95_026_236;

/// True when `d` is the day count of a representable calendar date.
pub open spec fn date_in_range(d: int) -> bool {
    DATE_DAYS_MIN <= d <= DATE_DAYS_MAX
}

/// The day count that parsing an ISO `yyyy-mm-dd` byte string yields,
/// if it parses.
pub uninterp spec fn date_days_of(s: Seq<u8>) -> Option<int>;

/// The ISO rendering of the date with day count `d`.
pub uninterp spec fn date_str_of(d: int) -> Seq<u8>;

/// Relies on `str::from_utf8`, `chrono::NaiveDate`'s `FromStr` and
/// `NaiveDate::to_epoch_days`: parsing is a function of the bytes
/// alone, and a parsed date lies within the representable range, whose
/// bounds the calendar type's limits give.
#[verifier::external_body]
pub(crate) fn parse_date_days(b: &[u8]) -> (r: Option<i64>)
    ensures
        r is Some <==> date_days_of(b@) is Some,
        r is Some ==> r.unwrap() as int == date_days_of(b@).unwrap(),
        r is Some ==> date_in_range(r.unwrap() as int),
{
    let s = core::str::from_utf8(b).ok()?;
    let d: chrono::NaiveDate = s.parse().ok()?;
    Some(d.to_epoch_days() as i64)
}

/// Relies on `chrono::NaiveDate::from_epoch_days` and the ISO `Display`
/// form of `NaiveDate`: a date exists exactly for day counts within the
/// representable range, and its rendering is a function of the day
/// count alone.
#[verifier::external_body]
pub(crate) fn format_date_days(d: i64) -> (r: Option<Vec<u8>>)
    ensures
        r is Some <==> date_in_range(d as int),
        r is Some ==> r.unwrap()@ == date_str_of(d as int),
{
    let narrow = i32::try_from(d).ok()?;
    let date = chrono::NaiveDate::from_epoch_days(narrow)?;
    Some(date.to_string().into_bytes())
}

/// Relies on `chrono::Local::now`: the current local calendar date is a
/// representable date; which one it is depends on the clock, so nothing
/// more is claimed.
#[verifier::external_body]
pub(crate) fn today_days() -> (r: i64)
    ensures
        date_in_range(r as int),
{
    chrono::Local::now().date_naive().to_epoch_days() as i64
}

/// A byte that an RFC 3339 timestamp may hold: an ASCII digit or one
/// of the fixed separators `+ - . : T`.
pub open spec fn is_stamp_byte(b: u8) -> bool {
    (48 <= b <= 57) || b == 43 || b == 45 || b == 46 || b == 58 || b == 84
}

/// The shape every RFC 3339 rendering has, whatever instant the clock
/// gave: at least the 25 bytes of a four-digit date, `T`, the time and
/// a numeric offset, all drawn from digits and the fixed separators —
/// in particular, never a newline.
pub open spec fn is_rfc3339_like(s: Seq<u8>) -> bool {
    s.len() >= 25 && forall|k: int| 0 <= k < s.len() ==> is_stamp_byte(#[trigger] s[k])
}

/// Relies on `chrono::Utc::now` and its RFC 3339 formatting (`%+`):
/// which instant comes back depends on the clock, but every rendering
/// is a date (year zero-padded to at least four digits), `T`, the
/// time, an optional fraction and a numeric offset, written with
/// digits and the separators `+ - . :` alone.
#[verifier::external_body]
pub(crate) fn now_rfc3339_bytes() -> (r: Vec<u8>)
    ensures
        is_rfc3339_like(r@),
{
    chrono::Utc::now().format("%+").to_string().into_bytes()
}

} // verus!
