//! Calendar dates of the proleptic Gregorian calendar, held as day numbers,
//! and what the `chrono` crate computes of them.

use vstd::prelude::*;
use chrono::{Datelike, NaiveDate};
use crate::text::zero_padded;

verus! {

/// The day number of January 1 of the year -262143, the first date that
/// `chrono` can hold.
pub const MIN_DAY_NUMBER: i32 = -95_746_129;

/// The day number of December 31 of the year 262142, the last date that
/// `chrono` can hold.
pub const MAX_DAY_NUMBER: i32 = 95_745_399;

/// The day number that `chrono` gives the date with this year, month and
/// day, where there is such a date.
pub uninterp spec fn day_number_of_ymd(year: int, month: int, day: int) -> Option<int>;

/// The day number of the date that `chrono` reads in `text` under `format`,
/// where it reads one.
pub uninterp spec fn day_number_of_text(text: Seq<char>, format: Seq<char>) -> Option<int>;

/// The year of the ISO 8601 week that holds the day.
pub uninterp spec fn iso_year_of_day(day_number: int) -> int;

/// The number of the ISO 8601 week that holds the day.
pub uninterp spec fn iso_week_of_day(day_number: int) -> int;

/// The day's place in its week, from 0 for Monday to 6 for Sunday.
pub uninterp spec fn weekday_of_day(day_number: int) -> int;

/// The calendar year of the day.
pub uninterp spec fn year_of_day(day_number: int) -> int;

/// The calendar month of the day.
pub uninterp spec fn month_of_day(day_number: int) -> int;

/// The day of the month of the day.
pub uninterp spec fn day_of_month_of_day(day_number: int) -> int;

/// A year as ISO 8601 writes it: four digits for the years 0 to 9999, and
/// a sign before at least four digits for any other.
pub open spec fn year_text(year: int) -> Seq<char> {
    if 0 <= year <= 9999 {
        zero_padded(year as nat, 4)
    } else if year < 0 {
        seq!['-'] + zero_padded((-year) as nat, 4)
    } else {
        seq!['+'] + zero_padded(year as nat, 4)
    }
}

/// A date as ISO 8601 writes it: the year, the month in two digits and the
/// day in two digits, separated by hyphens.
pub open spec fn date_text(year: int, month: int, day: int) -> Seq<char> {
    year_text(year) + "-"@ + zero_padded(month as nat, 2) + "-"@ + zero_padded(day as nat, 2)
}

/// The day with the given number as ISO 8601 writes it.
pub open spec fn text_of_day(day_number: int) -> Seq<char> {
    date_text(
        year_of_day(day_number),
        month_of_day(day_number),
        day_of_month_of_day(day_number),
    )
}

/// Whether `chrono` can hold the day with this number.
pub open spec fn day_number_in_range(day_number: int) -> bool {
    MIN_DAY_NUMBER <= day_number <= MAX_DAY_NUMBER
}

/// `NaiveDate::from_ymd_opt` of chrono, with the date it makes turned into
/// its day number by `num_days_from_ce`. Claimed: the result is a function
/// of the three numbers, and a date that exists lies in chrono's range.
#[verifier::external_body]
fn chrono_from_ymd(year: i32, month: u32, day: u32) -> (r: Option<i32>)
    ensures
        r is Some <==> day_number_of_ymd(year as int, month as int, day as int) is Some,
        r matches Some(n) ==> day_number_in_range(n as int) && day_number_of_ymd(
            year as int,
            month as int,
            day as int,
        ) == Some(n as int),
{
    match NaiveDate::from_ymd_opt(year, month, day) {
        Some(date) => Some(date.num_days_from_ce()),
        None => None,
    }
}

/// `NaiveDate::parse_from_str` of chrono, with the date it reads turned into
/// its day number and its error dropped. Claimed: the result is a function
/// of the text and the format, and a date that was read lies in chrono's
/// range.
#[verifier::external_body]
fn chrono_parse(text: &str, format: &str) -> (r: Option<i32>)
    ensures
        r is Some <==> day_number_of_text(text@, format@) is Some,
        r matches Some(n) ==> day_number_in_range(n as int) && day_number_of_text(text@, format@)
            == Some(n as int),
{
    match NaiveDate::parse_from_str(text, format) {
        Ok(date) => Some(date.num_days_from_ce()),
        Err(_) => None,
    }
}

/// `IsoWeek::year` of chrono, on the ISO week of the day. Claimed: the
/// result is a function of the day number.
#[verifier::external_body]
fn chrono_iso_year(day_number: i32) -> (r: i32)
    requires
        day_number_in_range(day_number as int),
    ensures
        r == iso_year_of_day(day_number as int),
{
    NaiveDate::from_num_days_from_ce_opt(day_number).unwrap().iso_week().year()
}

/// `IsoWeek::week` of chrono, on the ISO week of the day. Claimed: the
/// result is a function of the day number and lies between 1 and 53.
#[verifier::external_body]
fn chrono_iso_week(day_number: i32) -> (r: u32)
    requires
        day_number_in_range(day_number as int),
    ensures
        r == iso_week_of_day(day_number as int),
        1 <= r <= 53,
{
    NaiveDate::from_num_days_from_ce_opt(day_number).unwrap().iso_week().week()
}

/// `Weekday::num_days_from_monday` of chrono, on the weekday of the day.
/// Claimed: the result is a function of the day number and is at most 6.
#[verifier::external_body]
fn chrono_weekday(day_number: i32) -> (r: u32)
    requires
        day_number_in_range(day_number as int),
    ensures
        r == weekday_of_day(day_number as int),
        r <= 6,
{
    NaiveDate::from_num_days_from_ce_opt(day_number).unwrap().weekday().num_days_from_monday()
}

/// `Datelike::year` of chrono, on the day. Claimed: the result is a function
/// of the day number.
#[verifier::external_body]
fn chrono_year(day_number: i32) -> (r: i32)
    requires
        day_number_in_range(day_number as int),
    ensures
        r == year_of_day(day_number as int),
{
    NaiveDate::from_num_days_from_ce_opt(day_number).unwrap().year()
}

/// `Datelike::month` of chrono, on the day. Claimed: the result is a
/// function of the day number.
#[verifier::external_body]
fn chrono_month(day_number: i32) -> (r: u32)
    requires
        day_number_in_range(day_number as int),
    ensures
        r == month_of_day(day_number as int),
{
    NaiveDate::from_num_days_from_ce_opt(day_number).unwrap().month()
}

/// `Datelike::day` of chrono, on the day. Claimed: the result is a function
/// of the day number.
#[verifier::external_body]
fn chrono_day(day_number: i32) -> (r: u32)
    requires
        day_number_in_range(day_number as int),
    ensures
        r == day_of_month_of_day(day_number as int),
{
    NaiveDate::from_num_days_from_ce_opt(day_number).unwrap().day()
}

/// The `Display` of chrono's `NaiveDate`, on the day. Claimed: the text is
/// the year, the month and the day that chrono gives for the date, written
/// as ISO 8601 asks: the year in four digits, or with a sign before at
/// least four digits where it lies outside 0 to 9999, then the month and
/// the day in two digits each, with hyphens between.
#[verifier::external_body]
fn chrono_display(day_number: i32) -> (r: String)
    requires
        day_number_in_range(day_number as int),
    ensures
        r@ == text_of_day(day_number as int),
{
    NaiveDate::from_num_days_from_ce_opt(day_number).unwrap().to_string()
}

/// A calendar date, held as its day number: January 1 of the year 1 is day 1.
#[derive(Clone, Copy, Debug, PartialEq, Eq, Structural, PartialOrd, Ord, Hash)]
pub struct Date {
    day_number: i32,
}

/// An inclusive pair of a first and a last date.
pub type DateRange = (Date, Date);

impl View for Date {
    type V = int;

    /// The day number.
    closed spec fn view(&self) -> int {
        self.day_number as int
    }
}

impl Date {
    /// A date is well formed when `chrono` can hold it.
    pub open spec fn wf(self) -> bool {
        day_number_in_range(self@)
    }

    /// Two dates with one day number are one date.
    pub proof fn lemma_same_day(self, other: Date)
        ensures
            self@ == other@ <==> self == other,
    {
    }

    /// The date with the given day number, if `chrono` can hold it.
    pub fn from_day_number(day_number: i32) -> (r: Option<Date>)
        ensures
            r is Some <==> day_number_in_range(day_number as int),
            r matches Some(date) ==> date@ == day_number && date.wf(),
    {
        if MIN_DAY_NUMBER <= day_number && day_number <= MAX_DAY_NUMBER {
            Some(Date { day_number })
        } else {
            None
        }
    }

    /// The date with the given year, month and day, if there is one.
    pub fn from_ymd_opt(year: i32, month: u32, day: u32) -> (r: Option<Date>)
        ensures
            r is Some <==> day_number_of_ymd(year as int, month as int, day as int) is Some,
            r matches Some(date) ==> date.wf() && day_number_of_ymd(
                year as int,
                month as int,
                day as int,
            ) == Some(date@),
    {
        match chrono_from_ymd(year, month, day) {
            Some(day_number) => Some(Date { day_number }),
            None => None,
        }
    }

    /// The date that `text` holds under `format`, if `chrono` reads one.
    pub fn parse_from_str(text: &str, format: &str) -> (r: Option<Date>)
        ensures
            r is Some <==> day_number_of_text(text@, format@) is Some,
            r matches Some(date) ==> date.wf() && day_number_of_text(text@, format@) == Some(
                date@,
            ),
    {
        match chrono_parse(text, format) {
            Some(day_number) => Some(Date { day_number }),
            None => None,
        }
    }

    /// The day number.
    pub fn day_number(&self) -> (r: i32)
        ensures
            r == self@,
    {
        self.day_number
    }

    /// The year of the ISO week that holds the date.
    pub fn iso_year(&self) -> (r: i32)
        requires
            self.wf(),
        ensures
            r == iso_year_of_day(self@),
    {
        chrono_iso_year(self.day_number)
    }

    /// The number of the ISO week that holds the date.
    pub fn iso_week(&self) -> (r: u32)
        requires
            self.wf(),
        ensures
            r == iso_week_of_day(self@),
            1 <= r <= 53,
    {
        chrono_iso_week(self.day_number)
    }

    /// The date's place in its week, from 0 for Monday to 6 for Sunday.
    pub fn weekday_index(&self) -> (r: usize)
        requires
            self.wf(),
        ensures
            r == weekday_of_day(self@),
            r < 7,
    {
        chrono_weekday(self.day_number) as usize
    }

    /// The calendar year.
    pub fn year(&self) -> (r: i32)
        requires
            self.wf(),
        ensures
            r == year_of_day(self@),
    {
        chrono_year(self.day_number)
    }

    /// The calendar month.
    pub fn month(&self) -> (r: u32)
        requires
            self.wf(),
        ensures
            r == month_of_day(self@),
    {
        chrono_month(self.day_number)
    }

    /// The day of the month.
    pub fn day(&self) -> (r: u32)
        requires
            self.wf(),
        ensures
            r == day_of_month_of_day(self@),
    {
        chrono_day(self.day_number)
    }

    /// The date as text, year, month and day separated by hyphens.
    pub fn to_text(&self) -> (r: String)
        requires
            self.wf(),
        ensures
            r@ == text_of_day(self@),
    {
        chrono_display(self.day_number)
    }
}

} // verus!
