//! Times as text, through the chrono crate.

use vstd::prelude::*;
use crate::mime::is_printable_ascii;

verus! {

/// The text that chrono gives for the time `seconds` after the start of
/// 1970 (UTC) under the strftime pattern `pattern`, or `None` where chrono
/// has no such time or does not take the pattern.
pub uninterp spec fn utc_text(seconds: int, pattern: Seq<char>) -> Option<Seq<char>>;

/// The pattern of an HTTP date: day name, day, month name, year, time of
/// day, `GMT`.
pub const HTTP_DATE: &'static str = "%a, %d %b %Y %H:%M:%S GMT";

/// The first second of the year 0, counted from the start of 1970.
pub const FIRST_SECOND: i64 = -62167219200;

/// The last second of the year 9999, counted from the start of 1970.
pub const LAST_SECOND: i64 = 253402300799;

/// Whether chrono writes the time `seconds` as an HTTP date for certain:
/// the time lies in the years 0 to 9999, far within chrono's calendar.
pub open spec fn has_http_date(seconds: int) -> bool {
    FIRST_SECOND <= seconds <= LAST_SECOND
}

/// `chrono::DateTime::format` on the UTC time that
/// `chrono::DateTime::from_timestamp` makes of `seconds`, written out with
/// `DelayedFormat::write_to`. The result is a function of `seconds` and
/// `pattern` alone: the time zone is UTC and the names of days and months
/// are the English ones. Under the pattern of an HTTP date, a time in the
/// years 0 to 9999 has a text, made of English letters, digits, commas,
/// colons and spaces: chrono holds every such time and takes every item of
/// the pattern.
#[verifier::external_body]
pub(crate) fn format_utc(seconds: i64, pattern: &str) -> (text: Option<String>)
    ensures
        match text {
            Some(t) => utc_text(seconds as int, pattern@) == Some(t@),
            None => utc_text(seconds as int, pattern@) is None,
        },
        (pattern@ == HTTP_DATE@ && has_http_date(seconds as int)) ==> text is Some,
        (pattern@ == HTTP_DATE@ && has_http_date(seconds as int)) ==> (text matches Some(t)
            ==> is_printable_ascii(t@)),
{
    let time = chrono::DateTime::<chrono::Utc>::from_timestamp(seconds, 0)?;
    let mut text = String::new();
    match time.format(pattern).write_to(&mut text) {
        Ok(()) => Some(text),
        Err(_) => None,
    }
}

/// The whole seconds since the start of 1970 of a time that lies `seconds`
/// seconds and `nanos` nanoseconds after that start, or before it: a time
/// before the start counts down, and a broken second counts as begun.
pub open spec fn whole_seconds(after: bool, seconds: nat, nanos: nat) -> int {
    if after {
        seconds as int
    } else if nanos == 0 {
        -(seconds as int)
    } else {
        -(seconds as int) - 1
    }
}

/// The whole seconds since the start of 1970 of a time given by its
/// distance from that start, or `None` where they do not fit the number.
pub fn epoch_seconds(after: bool, seconds: u64, nanos: u32) -> (r: Option<i64>)
    ensures
        match r {
            Some(whole) => whole == whole_seconds(after, seconds as nat, nanos as nat),
            None => !(i64::MIN <= whole_seconds(after, seconds as nat, nanos as nat) <= i64::MAX),
        },
{
    if seconds > i64::MAX as u64 {
        if !after && nanos == 0 && seconds == i64::MAX as u64 + 1 {
            return Some(i64::MIN);
        }
        return None;
    }
    let whole: i64 = seconds as i64;
    if after {
        Some(whole)
    } else if nanos == 0 {
        Some(-whole)
    } else {
        Some(-whole - 1)
    }
}

} // verus!
