//! Parsing timestamp text.
//!
//! The accounting tool and the watermark file both carry timestamps as text
//! in fixed strftime formats. Deciding whether such text is a real calendar
//! timestamp (month lengths, leap years, field ranges) is delegated to the
//! `chrono` crate behind one trusted wrapper; everything downstream works on
//! the plain `Timestamp` fields it returns.

use vstd::prelude::*;

use crate::timestamp::Timestamp;

verus! {

/// Format of the timestamps the accounting tool prints.
pub open spec fn spec_input_format() -> Seq<char> {
    "%Y-%m-%dT%H:%M:%S"@
}

pub fn input_format() -> (s: &'static str)
    ensures
        s@ == spec_input_format(),
{
    "%Y-%m-%dT%H:%M:%S"
}

/// Format of the watermark file and of audit-log timestamps.
pub open spec fn spec_watermark_format() -> Seq<char> {
    "%Y-%m-%d %H:%M:%S"@
}

pub fn watermark_format() -> (s: &'static str)
    ensures
        s@ == spec_watermark_format(),
{
    "%Y-%m-%d %H:%M:%S"
}

/// The calendar fields `(year, month, day, hour, minute, second)` that
/// `chrono` reads out of `s` under format `fmt`, or `None` where `s` does not
/// match `fmt`. The outcome depends on the two strings alone.
pub uninterp spec fn spec_parsed_datetime(s: Seq<char>, fmt: Seq<char>) -> Option<
    (int, int, int, int, int, int),
>;

/// Relies on `chrono::NaiveDateTime::parse_from_str`: whether text matches a
/// strftime format, and which calendar fields it denotes, are functions of
/// the text and the format alone. The accessors are documented to return the
/// year as an `i32` and month 1..=12, day 1..=31, hour 0..=23, minute 0..=59
/// and second 0..=59.
#[verifier::external_body]
pub(crate) fn parse_datetime(s: &str, fmt: &str) -> (r: Option<Timestamp>)
    ensures
        match r {
            Some(t) => {
                &&& spec_parsed_datetime(s@, fmt@) == Some(t.as_fields())
                &&& t.wf()
                &&& i32::MIN <= t.year <= i32::MAX
            },
            None => spec_parsed_datetime(s@, fmt@) is None,
        },
{
    match chrono::NaiveDateTime::parse_from_str(s, fmt) {
        Ok(dt) => Some(Timestamp {
            year: chrono::Datelike::year(&dt) as i64,
            month: chrono::Datelike::month(&dt) as u8,
            day: chrono::Datelike::day(&dt) as u8,
            hour: chrono::Timelike::hour(&dt) as u8,
            minute: chrono::Timelike::minute(&dt) as u8,
            second: chrono::Timelike::second(&dt) as u8,
        }),
        Err(_) => None,
    }
}

/// The timestamp whose fields are `f`; inverse of `Timestamp::as_fields` on
/// in-range fields.
pub open spec fn ts_of_fields(f: (int, int, int, int, int, int)) -> Timestamp {
    Timestamp {
        year: f.0 as i64,
        month: f.1 as u8,
        day: f.2 as u8,
        hour: f.3 as u8,
        minute: f.4 as u8,
        second: f.5 as u8,
    }
}

} // verus!
