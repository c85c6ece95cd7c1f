//! Dates and timestamps. A date is an integer holding the year times 512
//! plus the day of the year; a timestamp is a big integer holding
//! milliseconds since the Unix epoch. The calendar is that of `chrono`.

use vstd::prelude::*;
use crate::data::Datum;

verus! {

/// The text that `chrono` prints for the day `day` of the year `year`, as
/// `YYYY-MM-DD`; nothing where the year has no such day.
pub uninterp spec fn date_text(year: int, day: int) -> Option<Seq<u8>>;

/// The text that `chrono` prints for the time that lies `seconds` and
/// `nanos` after the Unix epoch, without a time zone; nothing where the
/// time is out of its range.
pub uninterp spec fn timestamp_text(seconds: int, nanos: int) -> Option<Seq<u8>>;

/// The day of the year that `chrono` gives for a day of a month; nothing
/// where the month has no such day.
pub uninterp spec fn day_of_year(year: int, month: int, day: int) -> Option<int>;

/// `chrono::NaiveDate::from_yo_opt` and the `Display` of the date.
#[verifier::external_body]
fn outside_date_text(year: i32, day: u32) -> (r: Option<Vec<u8>>)
    ensures
        match r {
            Some(text) => date_text(year as int, day as int) == Some(text@),
            None => date_text(year as int, day as int) is None,
        },
{
    chrono::NaiveDate::from_yo_opt(year, day).map(|d| d.to_string().into_bytes())
}

/// `chrono::DateTime::from_timestamp` and the `Display` of the naive time.
#[verifier::external_body]
fn outside_timestamp_text(seconds: i64, nanos: u32) -> (r: Option<Vec<u8>>)
    ensures
        match r {
            Some(text) => timestamp_text(seconds as int, nanos as int) == Some(text@),
            None => timestamp_text(seconds as int, nanos as int) is None,
        },
{
    chrono::DateTime::from_timestamp(seconds, nanos).map(|t| t.naive_utc().to_string().into_bytes())
}

/// `chrono::NaiveDate::from_ymd_opt` and `chrono::Datelike::ordinal`.
#[verifier::external_body]
fn outside_day_of_year(year: i32, month: u32, day: u32) -> (r: Option<u32>)
    ensures
        match r {
            Some(n) => day_of_year(year as int, month as int, day as int) == Some(n as int),
            None => day_of_year(year as int, month as int, day as int) is None,
        },
{
    chrono::NaiveDate::from_ymd_opt(year, month, day).map(|d| chrono::Datelike::ordinal(&d))
}

/// The text of a date, where the calendar has it.
pub fn format_date(year: i32, day: u32) -> (r: Option<Vec<u8>>)
    ensures
        match r {
            Some(text) => date_text(year as int, day as int) == Some(text@),
            None => date_text(year as int, day as int) is None,
        },
{
    outside_date_text(year, day)
}

/// The text of a timestamp, where the calendar has it.
pub fn format_timestamp(seconds: i64, nanos: u32) -> (r: Option<Vec<u8>>)
    ensures
        match r {
            Some(text) => timestamp_text(seconds as int, nanos as int) == Some(text@),
            None => timestamp_text(seconds as int, nanos as int) is None,
        },
{
    outside_timestamp_text(seconds, nanos)
}

/// The integer that stands for a date given its day of the year.
pub open spec fn date_value(year: i32, day: int) -> Option<i32> {
    if 1 <= day <= 366 && i32::MIN <= year * 512 + day <= i32::MAX {
        Some((year * 512 + day) as i32)
    } else {
        None
    }
}

impl Datum<'static> {
    /// The date of the given year, month and day, where the calendar has it
    /// and it can be held.
    pub fn from_ymd(year: i32, month: u32, day: u32) -> (r: Option<Datum<'static>>)
        ensures
            match r {
                Some(d) => day_of_year(year as int, month as int, day as int) matches Some(n)
                    && date_value(year, n) matches Some(v) && d == Datum::Integer(v),
                None => match day_of_year(year as int, month as int, day as int) {
                    Some(n) => date_value(year, n) is None,
                    None => true,
                },
            },
    {
        match outside_day_of_year(year, month, day) {
            Some(n) => {
                if n < 1 || n > 366 {
                    return None;
                }
                let value: i64 = year as i64 * 512 + n as i64;
                if value < i32::MIN as i64 || value > i32::MAX as i64 {
                    None
                } else {
                    Some(Datum::Integer(value as i32))
                }
            },
            None => None,
        }
    }
}

} // verus!
