//! Calendar dates of the proleptic Gregorian calendar, without a time of day.
//!
//! A `Date` holds a year, a month and a day as plain integers and is always a
//! day that exists. Reading a date from text, writing it back and asking for
//! today's date are left to `chrono`.

use chrono::Datelike;
use chrono::Local;
use chrono::NaiveDate;
use vstd::prelude::*;

verus! {

/// The earliest year a date can have.
pub const MIN_YEAR: i32 = -262143;

/// The latest year a date can have.
pub const MAX_YEAR: i32 = 262142;

/// Whether `year` has a 29th of February.
pub open spec fn is_leap_year(year: int) -> bool {
    year % 4 == 0 && (year % 100 != 0 || year % 400 == 0)
}

/// The number of days of `month` in `year`, and 0 where `month` is no month.
pub open spec fn days_in_month(year: int, month: int) -> int {
    if month == 4 || month == 6 || month == 9 || month == 11 {
        30
    } else if month == 2 {
        if is_leap_year(year) {
            29
        } else {
            28
        }
    } else if 1 <= month <= 12 {
        31
    } else {
        0
    }
}

/// Whether year, month and day name a day that a `Date` can hold.
pub open spec fn is_calendar_day(year: int, month: int, day: int) -> bool {
    &&& MIN_YEAR <= year <= MAX_YEAR
    &&& 1 <= month <= 12
    &&& 1 <= day <= days_in_month(year, month)
}

/// What `NaiveDate::parse_from_str` makes of `text` under the format
/// `%Y-%m-%d`: the year, month and day it reads, or `None` where it rejects
/// the text.
pub uninterp spec fn parsed_date(text: Seq<char>) -> Option<(int, int, int)>;

/// What `NaiveDate::format` writes for a day under the format `%Y-%m-%d`.
pub uninterp spec fn iso_text(year: int, month: int, day: int) -> Seq<char>;

/// A calendar date.
#[derive(Clone, Copy, Debug, PartialEq, Eq, Structural)]
pub struct Date {
    year: i32,
    month: u32,
    day: u32,
}

impl Date {
    /// The year, as a mathematical integer.
    pub closed spec fn year_of(self) -> int {
        self.year as int
    }

    /// The month, from 1.
    pub closed spec fn month_of(self) -> int {
        self.month as int
    }

    /// The day of the month, from 1.
    pub closed spec fn day_of(self) -> int {
        self.day as int
    }

    /// Year, month and day together.
    pub open spec fn ymd(self) -> (int, int, int) {
        (self.year_of(), self.month_of(), self.day_of())
    }

    /// The date with the given year, month and day.
    pub closed spec fn of_ymd(ymd: (int, int, int)) -> Date {
        Date { year: ymd.0 as i32, month: ymd.1 as u32, day: ymd.2 as u32 }
    }

    /// The date that `text` is read as, if it is read as one.
    pub open spec fn parsed(text: Seq<char>) -> Option<Date> {
        match parsed_date(text) {
            Some(ymd) => Some(Date::of_ymd(ymd)),
            None => None,
        }
    }

    /// The date as it is written: year, month and day with hyphens between
    /// them.
    pub open spec fn text(self) -> Seq<char> {
        iso_text(self.year_of(), self.month_of(), self.day_of())
    }

    /// Every `Date` that code can hold is a day that exists.
    #[verifier::type_invariant]
    pub closed spec fn is_valid(self) -> bool {
        is_calendar_day(self.year as int, self.month as int, self.day as int)
    }

    /// Chronological order: `self` is an earlier day than `other`.
    pub open spec fn before(self, other: Date) -> bool {
        ||| self.year_of() < other.year_of()
        ||| (self.year_of() == other.year_of() && self.month_of() < other.month_of())
        ||| (self.year_of() == other.year_of() && self.month_of() == other.month_of()
            && self.day_of() < other.day_of())
    }

    /// `of_ymd` builds the date that `ymd` takes apart.
    pub proof fn lemma_of_ymd(self)
        ensures
            Date::of_ymd(self.ymd()) == self,
    {
    }

    /// Of two different days one is before the other, and never both.
    pub proof fn lemma_before_is_total(a: Date, b: Date)
        ensures
            a == b || a.before(b) || b.before(a),
            !(a.before(b) && b.before(a)),
            !a.before(a),
    {
    }

    /// The date of the given year, month and day, where that day exists.
    pub fn new(year: i32, month: u32, day: u32) -> (r: Option<Date>)
        ensures
            r is Some <==> is_calendar_day(year as int, month as int, day as int),
            r is Some ==> r.unwrap().ymd() == (year as int, month as int, day as int),
    {
        if year < MIN_YEAR || year > MAX_YEAR || month < 1 || month > 12 || day < 1 {
            return None;
        }
        let leap: bool = year % 4 == 0 && (year % 100 != 0 || year % 400 == 0);
        let last: u32 = if month == 4 || month == 6 || month == 9 || month == 11 {
            30
        } else if month == 2 {
            if leap {
                29
            } else {
                28
            }
        } else {
            31
        };
        if day > last {
            return None;
        }
        Some(Date { year, month, day })
    }

    /// The year.
    pub fn year(&self) -> (r: i32)
        ensures
            r == self.year_of(),
            MIN_YEAR <= r <= MAX_YEAR,
    {
        proof {
            use_type_invariant(self);
        }
        self.year
    }

    /// The month, from 1 to 12.
    pub fn month(&self) -> (r: u32)
        ensures
            r == self.month_of(),
            1 <= r <= 12,
    {
        proof {
            use_type_invariant(self);
        }
        self.month
    }

    /// The day of the month, from 1.
    pub fn day(&self) -> (r: u32)
        ensures
            r == self.day_of(),
            1 <= r <= days_in_month(self.year_of(), self.month_of()),
    {
        proof {
            use_type_invariant(self);
        }
        self.day
    }

    /// Whether `self` is an earlier day than `other`.
    pub fn is_before(&self, other: &Date) -> (r: bool)
        ensures
            r == self.before(*other),
    {
        self.year < other.year || (self.year == other.year && (self.month < other.month || (
        self.month == other.month && self.day < other.day)))
    }

    /// Reads a date written as year, month and day with hyphens between
    /// them, such as `2026-01-10`.
    pub fn parse(text: &str) -> (r: Option<Date>)
        ensures
            r == Date::parsed(text@),
    {
        let r = parse_date(text);
        proof {
            if r is Some {
                r.unwrap().lemma_of_ymd();
            }
        }
        r
    }

    /// The date written as year, month and day with hyphens between them.
    pub fn to_text(&self) -> (r: String)
        ensures
            r@ == self.text(),
    {
        proof {
            use_type_invariant(self);
        }
        format_date(self)
    }
}

/// Calls `NaiveDate::parse_from_str` with the format `%Y-%m-%d` and reads
/// year, month and day off the result with `Datelike`. Trusted: the outcome
/// is named `parsed_date`, and a date that `chrono` hands out is a day that
/// exists, within `chrono`'s range of years.
#[verifier::external_body]
fn parse_date(text: &str) -> (r: Option<Date>)
    ensures
        r is Some ==> r.unwrap().is_valid() && parsed_date(text@) == Some(r.unwrap().ymd()),
        r is None ==> parsed_date(text@) is None,
{
    match NaiveDate::parse_from_str(text, "%Y-%m-%d") {
        Ok(d) => Some(Date { year: d.year(), month: d.month(), day: d.day() }),
        Err(_) => None,
    }
}

/// Calls `NaiveDate::from_ymd_opt` and `NaiveDate::format` with the format
/// `%Y-%m-%d`. Trusted: `from_ymd_opt` accepts every day that exists within
/// the range of years, and the text written is named `iso_text`.
#[verifier::external_body]
fn format_date(date: &Date) -> (r: String)
    requires
        date.is_valid(),
    ensures
        r@ == iso_text(date.year_of(), date.month_of(), date.day_of()),
{
    NaiveDate::from_ymd_opt(date.year, date.month, date.day).unwrap().format("%Y-%m-%d").to_string()
}

/// Calls `Local::now` and `DateTime::date_naive`: the calendar date of the
/// local wall clock at this instant. Trusted: it is a day that exists; which
/// one depends on the clock, so nothing more is claimed.
#[verifier::external_body]
pub(crate) fn local_today() -> (r: Date)
    ensures
        r.is_valid(),
{
    let d = Local::now().date_naive();
    Date { year: d.year(), month: d.month(), day: d.day() }
}

} // verus!
