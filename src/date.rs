//! Calendar dates of posts and the calls into chrono that parse, format and
//! place them.

use crate::errors::{ApcError, ApcResult};
use crate::text::concat3;
use chrono::Datelike;
use std::fmt::Write;
use vstd::prelude::*;

verus! {

/// A calendar date, as the post headers record it.
#[derive(Clone, Copy, Debug, PartialEq, Eq, Structural)]
pub struct Date {
    pub year: i32,
    pub month: u32,
    pub day: u32,
}

/// The year, month and day of a date.
pub open spec fn ymd(d: Date) -> (i32, u32, u32) {
    (d.year, d.month, d.day)
}

/// What chrono's `NaiveDate::parse_from_str` finds in a text under a pattern.
pub uninterp spec fn parsed_date(s: Seq<char>, fmt: Seq<char>) -> Option<(i32, u32, u32)>;

/// What chrono's `NaiveDate::format` writes for a date under a pattern.
pub uninterp spec fn formatted_date(date: (i32, u32, u32), fmt: Seq<char>) -> Option<Seq<char>>;

/// Relies on chrono's NaiveDate::parse_from_str: the date that `s` denotes
/// under the strftime pattern `fmt`, if any, read through `Datelike`, whose
/// month lies in 1..=12 and day in 1..=31.
#[verifier::external_body]
fn naive_date_from_str(s: &str, fmt: &str) -> (r: Option<(i32, u32, u32)>)
    ensures
        r == parsed_date(s@, fmt@),
        match r {
            Some(t) => 1 <= t.1 <= 12 && 1 <= t.2 <= 31,
            None => true,
        },
{
    match chrono::NaiveDate::parse_from_str(s, fmt) {
        Ok(d) => Some((d.year(), d.month(), d.day())),
        Err(_) => None,
    }
}

/// Relies on chrono's NaiveDate::format: the text of the date under the
/// pattern, or `None` where the date does not exist or the pattern holds an
/// item that cannot be written.
#[verifier::external_body]
fn naive_date_format(d: Date, fmt: &str) -> (r: Option<String>)
    ensures
        match r {
            Some(s) => formatted_date(ymd(d), fmt@) == Some(s@),
            None => formatted_date(ymd(d), fmt@) is None,
        },
{
    let date = chrono::NaiveDate::from_ymd_opt(d.year, d.month, d.day)?;
    let mut out = String::new();
    match write!(out, "{}", date.format(fmt)) {
        Ok(()) => Some(out),
        Err(_) => None,
    }
}

/// Relies on chrono's Local::now: today's date in the local time zone, read
/// through `Datelike`.
#[verifier::external_body]
fn local_today() -> (r: (i32, u32, u32))
    ensures
        1 <= r.1 <= 12 && 1 <= r.2 <= 31,
{
    let d = chrono::Local::now().date_naive();
    (d.year(), d.month(), d.day())
}

/// Relies on chrono's NaiveDateTime::and_local_timezone: whether midnight
/// of the date names exactly one instant in the local time zone.
#[verifier::external_body]
fn local_midnight_is_single(d: Date) -> (r: bool) {
    match chrono::NaiveDate::from_ymd_opt(d.year, d.month, d.day) {
        Some(date) => match date.and_hms_opt(0, 0, 0) {
            Some(t) => t.and_local_timezone(chrono::Local).single().is_some(),
            None => false,
        },
        None => false,
    }
}

impl Date {
    /// Today's date in the local time zone.
    pub fn today() -> (r: Date)
        ensures
            1 <= r.month <= 12 && 1 <= r.day <= 31,
    {
        let (year, month, day) = local_today();
        Date { year, month, day }
    }

    /// The date written under the strftime pattern `date_format`.
    pub fn format(&self, date_format: &str) -> (r: ApcResult<String>)
        ensures
            match r {
                Ok(s) => formatted_date(ymd(*self), date_format@) == Some(s@),
                Err(e) => formatted_date(ymd(*self), date_format@) is None && e is Validation,
            },
    {
        match naive_date_format(*self, date_format) {
            Some(s) => Ok(s),
            None => Err(
                ApcError::Validation(
                    concat3("The date cannot be written with the `", date_format, "` format"),
                ),
            ),
        }
    }
}

/// The date that a text denotes under a pattern, as the library holds it.
pub open spec fn date_of(s: Seq<char>, fmt: Seq<char>) -> Option<Date> {
    match parsed_date(s, fmt) {
        Some(t) => Some(Date { year: t.0, month: t.1, day: t.2 }),
        None => None,
    }
}

/// Parses a calendar date under the strftime pattern `date_format`.
pub fn parse_naive_date(date: &str, date_format: &str) -> (r: ApcResult<Date>)
    ensures
        match r {
            Ok(d) => date_of(date@, date_format@) == Some(d),
            Err(e) => date_of(date@, date_format@) is None && e is PostProperties,
        },
{
    match naive_date_from_str(date, date_format) {
        Some((year, month, day)) => Ok(Date { year, month, day }),
        None => Err(
            ApcError::PostProperties(
                concat3("Cannot parse `", date, "` as a date with the configured format"),
            ),
        ),
    }
}

/// Parses a calendar date under the strftime pattern `date_format` and
/// checks that its midnight is a single instant in the local time zone.
/// Whether it is depends on the machine's time zone: an `Ok` is always the
/// parsed date, and an unparsable text is always an error.
pub fn parse_str_date(date: &str, date_format: &str) -> (r: ApcResult<Date>)
    ensures
        date_of(date@, date_format@) is None ==> r is Err,
        match r {
            Ok(d) => date_of(date@, date_format@) == Some(d),
            Err(e) => e is PostProperties,
        },
{
    let d = parse_naive_date(date, date_format)?;
    if local_midnight_is_single(d) {
        Ok(d)
    } else {
        Err(
            ApcError::PostProperties(
                concat3("Cannot place `", date, "` at a single local midnight"),
            ),
        )
    }
}

} // verus!
