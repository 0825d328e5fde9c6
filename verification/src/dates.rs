//! Dates as the site shows and orders them.
//!
//! A date is held as the seconds since 1970 of a wall clock without a time
//! zone, together with the two texts that pages show of it.

use vstd::prelude::*;
use crate::text::{concat, opt_view};
use chrono::{DateTime, NaiveDateTime};
use std::fmt::Write;

verus! {

/// A date and time of day.
#[derive(Debug)]
pub struct Moment {
    /// Whole seconds since the start of 1970.
    pub timestamp: i64,
    /// The part of a second beyond them, in nanoseconds.
    pub nanos: u32,
    /// The date in full, down to what `nanos` holds.
    pub text: String,
    /// The date as pages show it, to the minute.
    pub label: String,
}

/// Why a text is no date.
#[derive(Debug, Clone, Copy, PartialEq, Eq, Structural)]
pub enum DateError {
    /// None of the accepted forms matches the text.
    Unrecognized,
    /// The text names a date that cannot be shown.
    OutOfRange,
}

/// What reading `text` as a date in the form `format` gives: the seconds
/// since 1970 and the nanoseconds, or nothing.
pub uninterp spec fn parsed_date(text: Seq<char>, format: Seq<char>) -> Option<(i64, u32)>;

/// The text of a date in the form `format`, or nothing where the date or the
/// form is not valid.
pub uninterp spec fn formatted_date(timestamp: i64, nanos: u32, format: Seq<char>) -> Option<
    Seq<char>,
>;

/// The form of a date in full.
pub open spec fn full_form() -> Seq<char> {
    "%Y-%m-%d %H:%M:%S%.f"@
}

/// The form of a date to the minute.
pub open spec fn minute_form() -> Seq<char> {
    "%Y-%m-%d %H:%M"@
}

/// The date that a frontmatter value names. Three forms are tried in turn:
/// to the second, to the minute, the day alone; at last the value with five
/// in the afternoon added, to the minute.
pub open spec fn recognized_date(text: Seq<char>) -> Option<(i64, u32)> {
    if parsed_date(text, "%Y-%m-%d %H:%M:%S"@) is Some {
        parsed_date(text, "%Y-%m-%d %H:%M:%S"@)
    } else if parsed_date(text, minute_form()) is Some {
        parsed_date(text, minute_form())
    } else if parsed_date(text, "%Y-%m-%d"@) is Some {
        parsed_date(text, "%Y-%m-%d"@)
    } else {
        parsed_date(text + " 17:00"@, minute_form())
    }
}

/// `NaiveDateTime::parse_from_str` of chrono, its result turned into the
/// seconds since 1970 and the nanoseconds by `and_utc`, `timestamp` and
/// `timestamp_subsec_nanos`; nothing where chrono reports an error.
#[verifier::external_body]
fn parse_date(text: &str, format: &str) -> (r: Option<(i64, u32)>)
    ensures
        r == parsed_date(text@, format@),
{
    let parsed = NaiveDateTime::parse_from_str(text, format).ok()?.and_utc();
    Some((parsed.timestamp(), parsed.timestamp_subsec_nanos()))
}

/// `NaiveDateTime::format` of chrono on the date that `DateTime::from_timestamp`
/// and `naive_utc` make of the numbers; nothing where chrono makes no date of
/// them or cannot write the form.
#[verifier::external_body]
fn format_date(timestamp: i64, nanos: u32, format: &str) -> (r: Option<String>)
    ensures
        opt_view(r) == formatted_date(timestamp, nanos, format@),
{
    let at = DateTime::from_timestamp(timestamp, nanos)?.naive_utc();
    let mut out = String::new();
    write!(out, "{}", at.format(format)).ok()?;
    Some(out)
}

impl Moment {
    /// The two texts are those of the two numbers.
    pub open spec fn wf(&self) -> bool {
        &&& formatted_date(self.timestamp, self.nanos, full_form()) == Some(self.text@)
        &&& formatted_date(self.timestamp, self.nanos, minute_form()) == Some(self.label@)
    }

    /// The moment of the given seconds and nanoseconds, where both texts of
    /// it can be written.
    pub fn new(timestamp: i64, nanos: u32) -> (r: Option<Moment>)
        ensures
            match r {
                Some(m) => m.wf() && m.timestamp == timestamp && m.nanos == nanos,
                None => formatted_date(timestamp, nanos, full_form()) is None || formatted_date(
                    timestamp,
                    nanos,
                    minute_form(),
                ) is None,
            },
    {
        match format_date(timestamp, nanos, "%Y-%m-%d %H:%M:%S%.f") {
            Some(text) => match format_date(timestamp, nanos, "%Y-%m-%d %H:%M") {
                Some(label) => Some(Moment { timestamp, nanos, text, label }),
                None => None,
            },
            None => None,
        }
    }

    /// A copy.
    pub fn copy(&self) -> (r: Moment)
        ensures
            r.timestamp == self.timestamp,
            r.nanos == self.nanos,
            r.text@ == self.text@,
            r.label@ == self.label@,
            self.wf() ==> r.wf(),
    {
        Moment {
            timestamp: self.timestamp,
            nanos: self.nanos,
            text: self.text.clone(),
            label: self.label.clone(),
        }
    }
}

/// The numbers of the date that a frontmatter value names.
pub fn recognize_date(text: &str) -> (r: Option<(i64, u32)>)
    ensures
        r == recognized_date(text@),
{
    match parse_date(text, "%Y-%m-%d %H:%M:%S") {
        Some(found) => Some(found),
        None => match parse_date(text, "%Y-%m-%d %H:%M") {
            Some(found) => Some(found),
            None => match parse_date(text, "%Y-%m-%d") {
                Some(found) => Some(found),
                None => {
                    let later = concat(text, " 17:00");
                    parse_date(later.as_str(), "%Y-%m-%d %H:%M")
                },
            },
        },
    }
}

/// The date that a frontmatter value names, ready to be shown.
pub fn match_possible_dates(date_str: &str) -> (r: Result<Moment, DateError>)
    ensures
        match r {
            Ok(m) => m.wf() && recognized_date(date_str@) == Some((m.timestamp, m.nanos)),
            Err(DateError::Unrecognized) => recognized_date(date_str@) is None,
            Err(DateError::OutOfRange) => recognized_date(date_str@) matches Some(found) && (
            formatted_date(found.0, found.1, full_form()) is None || formatted_date(
                found.0,
                found.1,
                minute_form(),
            ) is None),
        },
{
    match recognize_date(date_str) {
        Some(found) => match Moment::new(found.0, found.1) {
            Some(m) => Ok(m),
            None => Err(DateError::OutOfRange),
        },
        None => Err(DateError::Unrecognized),
    }
}

} // verus!
