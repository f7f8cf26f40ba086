//! Reading the start and end of the range from the command line: a day
//! (`YYYY-MM-DD`) or an hour of a day (`YYYY-MM-DD-HH`), parsed by chrono.
use vstd::prelude::*;
use chrono::format::ParseErrorKind;
use chrono::{Datelike, Timelike};
use crate::app_error::{AppError, DateParseErrorKind};
use crate::calendar::{CivilDate, CivilDateTime, valid_date};

verus! {

/// What chrono's `NaiveDate::parse_from_str(s, fmt)` gives: year, month and
/// day, or the kind of its error.
pub uninterp spec fn chrono_date_from_str(s: Seq<char>, fmt: Seq<char>) -> Result<(i32, u32, u32), DateParseErrorKind>;

/// What chrono's `NaiveDateTime::parse_from_str(s, fmt)` gives: year, month,
/// day, hour, minute and second, or the kind of its error.
pub uninterp spec fn chrono_datetime_from_str(s: Seq<char>, fmt: Seq<char>) -> Result<(i32, u32, u32, u32, u32, u32), DateParseErrorKind>;

/// chrono's `NaiveDate::parse_from_str`. Claimed: the result is the named
/// function of the input and the format, and a parsed date is a valid date of
/// chrono's range (a `NaiveDate` cannot hold another).
#[verifier::external_body]
fn naive_date_from_str(s: &str, fmt: &str) -> (r: Result<(i32, u32, u32), DateParseErrorKind>)
    ensures
        r == chrono_date_from_str(s@, fmt@),
        r matches Ok((y, m, d)) ==> valid_date(y as int, m as int, d as int),
{
    match chrono::NaiveDate::parse_from_str(s, fmt) {
        Ok(d) => Ok((d.year(), d.month(), d.day())),
        Err(e) => Err(match e.kind() {
            ParseErrorKind::OutOfRange => DateParseErrorKind::OutOfRange,
            ParseErrorKind::Impossible => DateParseErrorKind::Impossible,
            ParseErrorKind::NotEnough => DateParseErrorKind::NotEnough,
            ParseErrorKind::Invalid => DateParseErrorKind::Invalid,
            ParseErrorKind::TooShort => DateParseErrorKind::TooShort,
            ParseErrorKind::TooLong => DateParseErrorKind::TooLong,
            ParseErrorKind::BadFormat => DateParseErrorKind::BadFormat,
            ParseErrorKind::__Nonexhaustive => DateParseErrorKind::Unrecognized,
        }),
    }
}

/// chrono's `NaiveDateTime::parse_from_str`. Claimed: the result is the named
/// function of the input and the format, and a parsed date-time is valid (a
/// `NaiveDateTime` cannot hold another; its `second()` is below 60).
#[verifier::external_body]
fn naive_datetime_from_str(s: &str, fmt: &str) -> (r: Result<(i32, u32, u32, u32, u32, u32), DateParseErrorKind>)
    ensures
        r == chrono_datetime_from_str(s@, fmt@),
        r matches Ok((y, mo, d, h, mi, se)) ==> valid_date(y as int, mo as int, d as int) && h < 24
            && mi < 60 && se < 60,
{
    match chrono::NaiveDateTime::parse_from_str(s, fmt) {
        Ok(t) => Ok((t.year(), t.month(), t.day(), t.hour(), t.minute(), t.second())),
        Err(e) => Err(match e.kind() {
            ParseErrorKind::OutOfRange => DateParseErrorKind::OutOfRange,
            ParseErrorKind::Impossible => DateParseErrorKind::Impossible,
            ParseErrorKind::NotEnough => DateParseErrorKind::NotEnough,
            ParseErrorKind::Invalid => DateParseErrorKind::Invalid,
            ParseErrorKind::TooShort => DateParseErrorKind::TooShort,
            ParseErrorKind::TooLong => DateParseErrorKind::TooLong,
            ParseErrorKind::BadFormat => DateParseErrorKind::BadFormat,
            ParseErrorKind::__Nonexhaustive => DateParseErrorKind::Unrecognized,
        }),
    }
}

/// The format an hourly bound is read with, once `:00` is appended to it.
pub open spec fn hour_format() -> Seq<char> {
    "%Y-%m-%d-%H:%M"@
}

/// The format a daily bound is read with.
pub open spec fn day_format() -> Seq<char> {
    "%Y-%m-%d"@
}

/// The date-time of parsed fields.
pub open spec fn fields_datetime(t: (i32, u32, u32, u32, u32, u32)) -> CivilDateTime {
    CivilDateTime {
        date: CivilDate { year: t.0, month: t.1, day: t.2 },
        hour: t.3,
        minute: t.4,
        second: t.5,
    }
}

/// The first (for a start) or last (for an end) second of a day.
pub open spec fn day_bound(d: (i32, u32, u32), is_start: bool) -> CivilDateTime {
    CivilDateTime {
        date: CivilDate { year: d.0, month: d.1, day: d.2 },
        hour: if is_start { 0 } else { 23 },
        minute: if is_start { 0 } else { 59 },
        second: if is_start { 0 } else { 59 },
    }
}

/// `r` is the bound that `input` denotes, given how it parsed as an hour and
/// as a day: the hour if it is one, else the start or end of the day, else the
/// day parser's error.
pub open spec fn is_date_or_hour(
    r: Result<CivilDateTime, AppError>,
    input: Seq<char>,
    hourly: Result<(i32, u32, u32, u32, u32, u32), DateParseErrorKind>,
    daily: Result<(i32, u32, u32), DateParseErrorKind>,
    is_start: bool,
) -> bool {
    match hourly {
        Ok(t) => r == Ok::<CivilDateTime, AppError>(fields_datetime(t)),
        Err(_) => match daily {
            Ok(d) => r == Ok::<CivilDateTime, AppError>(day_bound(d, is_start)),
            Err(k) => r matches Err(AppError::ParseDate { input: i, source }) && i@ == input
                && source == k,
        },
    }
}

/// The bound `input` denotes, from how it parsed as an hour (`hourly`) and as
/// a day (`daily`).
pub fn date_or_hour_from_parses(
    input: &str,
    hourly: Result<(i32, u32, u32, u32, u32, u32), DateParseErrorKind>,
    daily: Result<(i32, u32, u32), DateParseErrorKind>,
    is_start: bool,
) -> (r: Result<CivilDateTime, AppError>)
    requires
        hourly matches Ok((y, mo, d, h, mi, se)) ==> valid_date(y as int, mo as int, d as int) && h
            < 24 && mi < 60 && se < 60,
        daily matches Ok((y, m, d)) ==> valid_date(y as int, m as int, d as int),
    ensures
        is_date_or_hour(r, input@, hourly, daily, is_start),
        r matches Ok(t) ==> t.wf(),
{
    match hourly {
        Ok((year, month, day, hour, minute, second)) => Ok(
            CivilDateTime { date: CivilDate { year, month, day }, hour, minute, second },
        ),
        Err(_) => match daily {
            Ok((year, month, day)) => {
                let date = CivilDate { year, month, day };
                if is_start {
                    Ok(CivilDateTime { date, hour: 0, minute: 0, second: 0 })
                } else {
                    Ok(CivilDateTime { date, hour: 23, minute: 59, second: 59 })
                }
            },
            Err(k) => Err(AppError::parse_date(input, k)),
        },
    }
}

/// Reads a range bound: `YYYY-MM-DD-HH` is that hour; `YYYY-MM-DD` is the
/// first second of the day for a start and the last second for an end.
pub fn parse_date_or_hour(date_or_hour: &str, is_start: bool) -> (r: Result<CivilDateTime, AppError>)
    ensures
        is_date_or_hour(
            r,
            date_or_hour@,
            chrono_datetime_from_str(date_or_hour@ + ":00"@, hour_format()),
            chrono_date_from_str(date_or_hour@, day_format()),
            is_start,
        ),
        r matches Ok(t) ==> t.wf(),
{
    let mut with_minutes = date_or_hour.to_owned();
    with_minutes.append(":00");
    let hourly = naive_datetime_from_str(with_minutes.as_str(), "%Y-%m-%d-%H:%M");
    let daily = match hourly {
        Ok(_) => Err(DateParseErrorKind::Unrecognized),
        Err(_) => naive_date_from_str(date_or_hour, "%Y-%m-%d"),
    };
    proof {
        assert(hour_format() == "%Y-%m-%d-%H:%M"@);
    }
    date_or_hour_from_parses(date_or_hour, hourly, daily, is_start)
}

} // verus!
