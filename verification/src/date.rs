//! Calendar dates written as day, month and year.

use chrono::{Datelike, NaiveDate};
use vstd::prelude::*;

verus! {

/// A calendar date.
#[derive(Debug, Clone, Copy, PartialEq, Eq, Structural)]
pub struct Date {
    /// The year of the proleptic Gregorian calendar.
    pub year: i32,
    /// The month, counted from 1.
    pub month: u32,
    /// The day of the month, counted from 1.
    pub day: u32,
}

/// The date that `text` spells in the form `dd.mm.YYYY`, if it spells one.
pub uninterp spec fn dmy_date(text: Seq<char>) -> Option<Date>;

/// Calls chrono's `NaiveDate::parse_from_str` with the format `%d.%m.%Y` and hands back
/// year, month and day of the date it gives, or `None` where it gives an error. The
/// outcome is taken on trust to be `dmy_date` of the text: a function of the text alone.
#[verifier::external_body]
pub(crate) fn parse_dmy_date(text: &str) -> (date: Option<Date>)
    ensures
        date == dmy_date(text@),
{
    match NaiveDate::parse_from_str(text, "%d.%m.%Y") {
        Ok(date) => Some(Date { year: date.year(), month: date.month(), day: date.day() }),
        Err(_) => None,
    }
}

} // verus!
