//! Calendar dates as day numbers.

use vstd::prelude::*;

verus! {

/// A calendar date without a time of day, held as its day number in the
/// proleptic Gregorian calendar: day 1 is January 1 of the year 1.
#[derive(Clone, Copy, Debug, PartialEq, Eq, Structural)]
pub struct Date {
    days: i32,
}

impl View for Date {
    type V = int;

    /// The day number of the date.
    closed spec fn view(&self) -> int {
        self.days as int
    }
}

impl DeepView for Date {
    type V = int;

    open spec fn deep_view(&self) -> int {
        self@
    }
}

/// The day number of the date that `text` spells in the layout `format`,
/// or `None` where `text` spells no date in that layout.
pub uninterp spec fn parsed_day_number(text: Seq<char>, format: Seq<char>) -> Option<int>;

/// `chrono::NaiveDate::parse_from_str`, followed by
/// `chrono::Datelike::num_days_from_ce` on the date it gives: the result is
/// the day number that [`parsed_day_number`] names for the same text and
/// layout, and `None` exactly where the parser reports an error. It is
/// called with the layout of year, month and day only.
#[verifier::external_body]
fn parse_day_number(text: &str, format: &str) -> (days: Option<i32>)
    requires
        format@ == "%Y-%m-%d"@,
    ensures
        match days {
            Some(n) => parsed_day_number(text@, format@) == Some(n as int),
            None => parsed_day_number(text@, format@) is None,
        },
{
    match chrono::NaiveDate::parse_from_str(text, format) {
        Ok(date) => Some(chrono::Datelike::num_days_from_ce(&date)),
        Err(_) => None,
    }
}

impl Date {
    /// The date with the given day number.
    pub fn from_num_days_from_ce(days: i32) -> (date: Date)
        ensures
            date@ == days,
    {
        Date { days }
    }

    /// The day number of the date.
    pub fn num_days_from_ce(&self) -> (days: i32)
        ensures
            days == self@,
    {
        self.days
    }

    /// The date that `text` spells as year, month and day with hyphens
    /// between them, such as `2024-06-01`; `None` where it spells none.
    pub fn parse(text: &str) -> (date: Option<Date>)
        ensures
            date.deep_view() == parsed_day_number(text@, "%Y-%m-%d"@),
    {
        match parse_day_number(text, "%Y-%m-%d") {
            Some(days) => Some(Date::from_num_days_from_ce(days)),
            None => None,
        }
    }
}

} // verus!
