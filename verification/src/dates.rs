//! Calendar dates and instants, read and written by `chrono`.
//!
//! The library keeps dates as plain integers. Reading a text as a date,
//! and writing one out, is left to `chrono`; what it returns is named here
//! and nothing more is claimed of it.

use vstd::prelude::*;
use std::fmt::Write;
use crate::parsing::{DB_DATE_FMT, IMAP_DATETIME_FMT};

verus! {

/// What `chrono::NaiveDate::parse_from_str` reads from `text` under the
/// format `format`: year, month and day, or nothing where it reports an
/// error.
pub uninterp spec fn chrono_date(text: Seq<char>, format: Seq<char>) -> Option<(i32, u32, u32)>;

/// The Unix time of the given time of day, taken as UTC, on the given day,
/// as `chrono` computes it; nothing where `chrono` has no such day or no
/// such time of day.
pub uninterp spec fn chrono_seconds(
    year: i32,
    month: u32,
    day: u32,
    hour: u32,
    minute: u32,
    second: u32,
) -> Option<i64>;

/// The given day written by `chrono` under the format; nothing where
/// `chrono` has no such day or cannot write it under the format.
pub uninterp spec fn chrono_date_text(year: i32, month: u32, day: u32, format: Seq<char>) -> Option<
    Seq<char>,
>;

/// What `chrono::DateTime::parse_from_str` reads from `text` under the
/// format `format`: the Unix time in seconds and the offset from UTC in
/// seconds, or nothing where it reports an error.
pub uninterp spec fn chrono_instant(text: Seq<char>, format: Seq<char>) -> Option<(i64, i32)>;

/// The instant written by `chrono` under the format, in its own offset;
/// nothing where `chrono` cannot hold the instant or the offset, or cannot
/// write it under the format.
pub uninterp spec fn chrono_instant_text(
    unix_seconds: i64,
    offset_seconds: i32,
    format: Seq<char>,
) -> Option<Seq<char>>;

/// Calls `chrono::NaiveDate::parse_from_str` and takes the date apart.
/// The contract only names the result.
#[verifier::external_body]
fn parse_ymd(text: &str, format: &str) -> (r: Option<(i32, u32, u32)>)
    ensures
        r == chrono_date(text@, format@),
{
    match chrono::NaiveDate::parse_from_str(text, format) {
        Ok(d) => Some(
            (chrono::Datelike::year(&d), chrono::Datelike::month(&d), chrono::Datelike::day(&d)),
        ),
        Err(_) => None,
    }
}

/// Calls `chrono::NaiveDate::from_ymd_opt`, `NaiveDate::and_hms_opt`,
/// `NaiveDateTime::and_utc` and `DateTime::timestamp`, one on the result of
/// the other. The contract only names the result.
#[verifier::external_body]
fn seconds_at(year: i32, month: u32, day: u32, hour: u32, minute: u32, second: u32) -> (r: Option<
    i64,
>)
    ensures
        r == chrono_seconds(year, month, day, hour, minute, second),
{
    let d = chrono::NaiveDate::from_ymd_opt(year, month, day)?;
    Some(d.and_hms_opt(hour, minute, second)?.and_utc().timestamp())
}

/// Calls `chrono::NaiveDate::from_ymd_opt` and `NaiveDate::format` with
/// the given format. The contract only names the result.
#[verifier::external_body]
fn date_text(year: i32, month: u32, day: u32, format: &str) -> (r: Option<String>)
    ensures
        r is Some <==> chrono_date_text(year, month, day, format@) is Some,
        r is Some ==> r->0@ == chrono_date_text(year, month, day, format@)->0,
{
    let d = chrono::NaiveDate::from_ymd_opt(year, month, day)?;
    let mut out = String::new();
    match write!(out, "{}", d.format(format)) {
        Ok(()) => Some(out),
        Err(_) => None,
    }
}

/// Calls `chrono::DateTime::parse_from_str` and takes the instant apart.
/// The contract only names the result.
#[verifier::external_body]
fn parse_instant(text: &str, format: &str) -> (r: Option<(i64, i32)>)
    ensures
        r == chrono_instant(text@, format@),
{
    match chrono::DateTime::parse_from_str(text, format) {
        Ok(d) => Some((d.timestamp(), d.offset().local_minus_utc())),
        Err(_) => None,
    }
}

/// Calls `chrono::DateTime::from_timestamp`, `DateTime::with_timezone`
/// with the given offset, and `DateTime::format` with the given format.
/// The contract only names the result.
#[verifier::external_body]
fn instant_text(unix_seconds: i64, offset_seconds: i32, format: &str) -> (r: Option<String>)
    ensures
        r is Some <==> chrono_instant_text(unix_seconds, offset_seconds, format@) is Some,
        r is Some ==> r->0@ == chrono_instant_text(unix_seconds, offset_seconds, format@)->0,
{
    let offset = chrono::FixedOffset::east_opt(offset_seconds)?;
    let utc = chrono::DateTime::from_timestamp(unix_seconds, 0)?;
    let mut out = String::new();
    match write!(out, "{}", utc.with_timezone(&offset).format(format)) {
        Ok(()) => Some(out),
        Err(_) => None,
    }
}

/// A calendar day together with what the store compares it by.
#[derive(Debug, Clone, PartialEq, Eq)]
pub struct Date {
    pub year: i32,
    pub month: u32,
    pub day: u32,
    /// Unix time of the day's midnight, UTC.
    pub unix_seconds: i64,
    /// The day under `DB_DATE_FMT`.
    pub canonical: String,
}

/// The day with the given calendar fields, where there is one: with the
/// Unix time of its midnight and its text under `DB_DATE_FMT`.
pub open spec fn date_of(year: i32, month: u32, day: u32) -> Option<DateView> {
    match (
        chrono_seconds(year, month, day, 0, 0, 0),
        chrono_date_text(year, month, day, DB_DATE_FMT@),
    ) {
        (Some(s), Some(t)) => Some(
            DateView { year, month, day, unix_seconds: s, canonical: t },
        ),
        _ => None,
    }
}

/// The day that a text holds under a format, where it holds one.
pub open spec fn date_in(text: Seq<char>, format: Seq<char>) -> Option<DateView> {
    match chrono_date(text, format) {
        Some((y, m, d)) => date_of(y, m, d),
        None => None,
    }
}

pub ghost struct DateView {
    pub year: i32,
    pub month: u32,
    pub day: u32,
    pub unix_seconds: i64,
    pub canonical: Seq<char>,
}

impl View for Date {
    type V = DateView;

    open spec fn view(&self) -> DateView {
        DateView {
            year: self.year,
            month: self.month,
            day: self.day,
            unix_seconds: self.unix_seconds,
            canonical: self.canonical@,
        }
    }
}

impl Date {
    /// The day with the given calendar fields.
    pub fn from_ymd(year: i32, month: u32, day: u32) -> (r: Option<Date>)
        ensures
            r is Some <==> date_of(year, month, day) is Some,
            r is Some ==> r->0@ == date_of(year, month, day)->0,
    {
        Self::from_parts(
            year,
            month,
            day,
            seconds_at(year, month, day, 0, 0, 0),
            date_text(year, month, day, DB_DATE_FMT),
        )
    }

    /// Puts a day together from what was computed of it.
    pub fn from_parts(
        year: i32,
        month: u32,
        day: u32,
        midnight: Option<i64>,
        text: Option<String>,
    ) -> (r: Option<Date>)
        ensures
            r is Some <==> (midnight is Some && text is Some),
            r is Some ==> r->0@ == (DateView {
                year,
                month,
                day,
                unix_seconds: midnight->0,
                canonical: text->0@,
            }),
    {
        match (midnight, text) {
            (Some(s), Some(t)) => Some(Date { year, month, day, unix_seconds: s, canonical: t }),
            _ => None,
        }
    }

    /// Reads a day from a text under a `chrono` format.
    pub fn parse(text: &str, format: &str) -> (r: Option<Date>)
        ensures
            r is Some <==> date_in(text@, format@) is Some,
            r is Some ==> r->0@ == date_in(text@, format@)->0,
    {
        match parse_ymd(text, format) {
            Some((y, m, d)) => Date::from_ymd(y, m, d),
            None => None,
        }
    }
}

/// An instant with the offset from UTC it was written in.
#[derive(Debug, Clone, Copy, PartialEq, Eq, Structural)]
pub struct Timestamp {
    pub unix_seconds: i64,
    pub offset_seconds: i32,
}

impl Timestamp {
    /// Reads an instant from a text under a `chrono` format.
    pub fn parse(text: &str, format: &str) -> (r: Option<Timestamp>)
        ensures
            r == match chrono_instant(text@, format@) {
                Some((s, o)) => Some(Timestamp { unix_seconds: s, offset_seconds: o }),
                None => None,
            },
    {
        match parse_instant(text, format) {
            Some((s, o)) => Some(Timestamp { unix_seconds: s, offset_seconds: o }),
            None => None,
        }
    }

    /// The instant under a `chrono` format.
    pub fn format(&self, format: &str) -> (r: Option<String>)
        ensures
            r is Some <==> chrono_instant_text(self.unix_seconds, self.offset_seconds, format@)
                is Some,
            r is Some ==> r->0@ == chrono_instant_text(
                self.unix_seconds,
                self.offset_seconds,
                format@,
            )->0,
    {
        instant_text(self.unix_seconds, self.offset_seconds, format)
    }

    /// The instant as INTERNALDATE shows it, under `IMAP_DATETIME_FMT`.
    pub fn to_imap_string(&self) -> (r: Option<String>)
        ensures
            r is Some <==> chrono_instant_text(
                self.unix_seconds,
                self.offset_seconds,
                IMAP_DATETIME_FMT@,
            ) is Some,
            r is Some ==> r->0@ == chrono_instant_text(
                self.unix_seconds,
                self.offset_seconds,
                IMAP_DATETIME_FMT@,
            )->0,
    {
        self.format(IMAP_DATETIME_FMT)
    }
}

} // verus!
