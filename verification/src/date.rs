//! Calendar dates without a time of day, as written on a score line.

use vstd::prelude::*;
use chrono::{Datelike, Days, NaiveDate};
use crate::text::{chars_of, digit_char, digit_value, is_digit, is_digit_char};

verus! {

/// A day of the proleptic Gregorian calendar.
#[derive(Clone, Copy, Debug, PartialEq, Eq, Structural, Hash)]
pub struct Date {
    pub year: i32,
    pub month: u32,
    pub day: u32,
}

/// Whether `year` has a 29th of February.
pub open spec fn is_leap_year(year: int) -> bool {
    year % 4 == 0 && (year % 100 != 0 || year % 400 == 0)
}

/// Number of days of `month` in `year`, for a month between 1 and 12.
pub open spec fn days_in_month(year: int, month: int) -> int {
    if month == 2 {
        if is_leap_year(year) {
            29
        } else {
            28
        }
    } else if month == 4 || month == 6 || month == 9 || month == 11 {
        30
    } else {
        31
    }
}

/// Whether the calendar has a day `day` in month `month` of `year`.
pub open spec fn is_calendar_date(year: int, month: int, day: int) -> bool {
    1 <= month <= 12 && 1 <= day <= days_in_month(year, month)
}

/// Whether `s` has the shape `YYYY-MM-DD`: ten characters, digits but for
/// the two hyphens.
pub open spec fn is_iso_date_text(s: Seq<char>) -> bool {
    &&& s.len() == 10
    &&& is_digit(s[0]) && is_digit(s[1]) && is_digit(s[2]) && is_digit(s[3])
    &&& s[4] == '-'
    &&& is_digit(s[5]) && is_digit(s[6])
    &&& s[7] == '-'
    &&& is_digit(s[8]) && is_digit(s[9])
}

/// The year that a text of the shape `YYYY-MM-DD` writes.
pub open spec fn iso_year(s: Seq<char>) -> int {
    1000 * digit_value(s[0]) + 100 * digit_value(s[1]) + 10 * digit_value(s[2]) + digit_value(
        s[3],
    )
}

/// The month that a text of the shape `YYYY-MM-DD` writes.
pub open spec fn iso_month(s: Seq<char>) -> int {
    10 * digit_value(s[5]) + digit_value(s[6])
}

/// The day of the month that a text of the shape `YYYY-MM-DD` writes.
pub open spec fn iso_day(s: Seq<char>) -> int {
    10 * digit_value(s[8]) + digit_value(s[9])
}

/// The date that `s` writes: `s` has the shape `YYYY-MM-DD` and names a day
/// that the calendar has. `None` for every other text.
pub open spec fn date_of_text(s: Seq<char>) -> Option<Date> {
    if is_iso_date_text(s) && is_calendar_date(iso_year(s), iso_month(s), iso_day(s)) {
        Some(Date { year: iso_year(s) as i32, month: iso_month(s) as u32, day: iso_day(s) as u32 })
    } else {
        None
    }
}

/// Whether `date` is a day that the calendar has, in a year that is
/// written with four digits.
pub open spec fn is_iso_day(date: Date) -> bool {
    0 <= date.year <= 9999 && is_calendar_date(date.year as int, date.month as int, date.day as int)
}

/// The two digits that write `n`, a number below 100.
pub open spec fn two_digits(n: int) -> Seq<char> {
    seq![digit_char(n / 10), digit_char(n % 10)]
}

/// `date` written as `YYYY-MM-DD`, for a year from 0 to 9999.
pub open spec fn iso_text(date: Date) -> Seq<char> {
    two_digits(date.year as int / 100) + two_digits(date.year as int % 100) + seq!['-']
        + two_digits(date.month as int) + seq!['-'] + two_digits(date.day as int)
}

/// Reading a day that was written as `YYYY-MM-DD` gives the day back.
pub proof fn lemma_iso_text_round_trip(date: Date)
    requires
        is_iso_day(date),
    ensures
        date_of_text(iso_text(date)) == Some(date),
{
    let s = iso_text(date);
    assert(s.len() == 10);
    let year = date.year as int;
    assert(s[0] == digit_char(year / 100 / 10));
    assert(s[1] == digit_char(year / 100 % 10));
    assert(s[2] == digit_char(year % 100 / 10));
    assert(s[3] == digit_char(year % 100 % 10));
    assert(s[4] == '-');
    assert(s[5] == digit_char(date.month as int / 10));
    assert(s[6] == digit_char(date.month as int % 10));
    assert(s[7] == '-');
    assert(s[8] == digit_char(date.day as int / 10));
    assert(s[9] == digit_char(date.day as int % 10));
    assert(iso_year(s) == date.year);
    assert(iso_month(s) == date.month);
    assert(iso_day(s) == date.day);
}

/// Whether `a` is the same day as `b` or an earlier one.
pub open spec fn date_le(a: Date, b: Date) -> bool {
    a.year < b.year || (a.year == b.year && (a.month < b.month || (a.month == b.month && a.day
        <= b.day)))
}

/// The day `days` days before `date`, as chrono computes it; `None` where
/// chrono has no such day.
pub uninterp spec fn days_before(date: Date, days: u64) -> Option<Date>;

/// The day `days` days after `date`, as chrono computes it; `None` where
/// chrono has no such day.
pub uninterp spec fn days_after(date: Date, days: u64) -> Option<Date>;

/// The text that chrono writes for `date`; `None` for a `date` that the
/// calendar lacks.
pub uninterp spec fn date_text(date: Date) -> Option<Seq<char>>;

/// The outcome of writing a date, with the text replaced by its view.
pub open spec fn written_view(res: Option<String>) -> Option<Seq<char>> {
    match res {
        Some(text) => Some(text@),
        None => None,
    }
}

/// Writes `date` with the `Display` of chrono's `NaiveDate`. The result is
/// a function of the date, which the contract names. For a day of the
/// calendar in a year from 0 to 9999 chrono writes the year in four digits
/// and month and day in two, with hyphens between them: the contract says
/// so. A `date` that the calendar lacks gives `None`.
#[verifier::external_body]
pub(crate) fn write_date(date: Date) -> (res: Option<String>)
    ensures
        written_view(res) == date_text(date),
        is_iso_day(date) ==> written_view(res) == Some(iso_text(date)),
        !is_calendar_date(date.year as int, date.month as int, date.day as int) ==> res is None,
{
    let day = NaiveDate::from_ymd_opt(date.year, date.month, date.day)?;
    Some(day.to_string())
}

/// Steps back `days` days with chrono's `NaiveDate::checked_sub_days`. The
/// contract only names the result: it is a function of the date and the
/// number of days. A `date` that the calendar lacks gives `None`.
#[verifier::external_body]
pub(crate) fn sub_days(date: Date, days: u64) -> (res: Option<Date>)
    ensures
        res == days_before(date, days),
{
    let start = NaiveDate::from_ymd_opt(date.year, date.month, date.day)?;
    let d = start.checked_sub_days(Days::new(days))?;
    Some(Date { year: d.year(), month: d.month(), day: d.day() })
}

/// Steps forward `days` days with chrono's `NaiveDate::checked_add_days`.
/// The contract only names the result: it is a function of the date and the
/// number of days. A `date` that the calendar lacks gives `None`.
#[verifier::external_body]
pub(crate) fn add_days(date: Date, days: u64) -> (res: Option<Date>)
    ensures
        res == days_after(date, days),
{
    let start = NaiveDate::from_ymd_opt(date.year, date.month, date.day)?;
    let d = start.checked_add_days(Days::new(days))?;
    Some(Date { year: d.year(), month: d.month(), day: d.day() })
}

/// The number that the ASCII digit `c` stands for.
fn digit_of(c: char) -> (d: u32)
    requires
        is_digit(c),
    ensures
        d == digit_value(c),
        d <= 9,
{
    c as u32 - '0' as u32
}

/// Number of days of `month` in `year`, for a month between 1 and 12.
fn days_of_month(year: u32, month: u32) -> (days: u32)
    requires
        year <= 9999,
    ensures
        days == days_in_month(year as int, month as int),
{
    if month == 2 {
        if year % 4 == 0 && (year % 100 != 0 || year % 400 == 0) {
            29
        } else {
            28
        }
    } else if month == 4 || month == 6 || month == 9 || month == 11 {
        30
    } else {
        31
    }
}

impl Date {
    /// Reads a date written as `YYYY-MM-DD`: four digits of the year, two
    /// of the month and two of the day, which must be a day that the
    /// calendar has.
    pub fn parse(text: &str) -> (res: Option<Date>)
        ensures
            res == date_of_text(text@),
    {
        let chars = chars_of(text);
        if chars.len() != 10 {
            return None;
        }
        let shaped = is_digit_char(chars[0]) && is_digit_char(chars[1]) && is_digit_char(chars[2])
            && is_digit_char(chars[3]) && chars[4] == '-' && is_digit_char(chars[5])
            && is_digit_char(chars[6]) && chars[7] == '-' && is_digit_char(chars[8])
            && is_digit_char(chars[9]);
        if !shaped {
            return None;
        }
        let year: u32 = 1000 * digit_of(chars[0]) + 100 * digit_of(chars[1]) + 10 * digit_of(
            chars[2],
        ) + digit_of(chars[3]);
        let month: u32 = 10 * digit_of(chars[5]) + digit_of(chars[6]);
        let day: u32 = 10 * digit_of(chars[8]) + digit_of(chars[9]);
        if 1 <= month && month <= 12 && 1 <= day && day <= days_of_month(year, month) {
            Some(Date { year: year as i32, month, day })
        } else {
            None
        }
    }

    /// Whether `self` is the same day as `other` or an earlier one.
    pub fn is_on_or_before(&self, other: &Date) -> (b: bool)
        ensures
            b == date_le(*self, *other),
    {
        self.year < other.year || (self.year == other.year && (self.month < other.month || (
        self.month == other.month && self.day <= other.day)))
    }
}

} // verus!
