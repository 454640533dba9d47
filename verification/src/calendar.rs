//! Calendar dates and times of day.

use crate::text::{decimal_string, decimal_text, digit_char, push_text};
use chrono::{Datelike, NaiveDate, NaiveTime, Timelike};
use vstd::prelude::*;

verus! {

/// A day of the proleptic Gregorian calendar.
#[derive(Clone, Copy, Debug, PartialEq, Eq, Structural)]
pub struct Date {
    pub year: i32,
    pub month: u32,
    pub day: u32,
}

/// A time of day, to the second.
#[derive(Clone, Copy, Debug, PartialEq, Eq, Structural)]
pub struct TimeOfDay {
    pub hour: u32,
    pub minute: u32,
    pub second: u32,
}

/// The first year that a date can hold.
pub open spec fn min_year() -> int {
    -262143
}

/// The last year that a date can hold.
pub open spec fn max_year() -> int {
    262142
}

pub open spec fn is_leap_year(year: int) -> bool {
    year % 4 == 0 && (year % 100 != 0 || year % 400 == 0)
}

pub open spec fn days_in_month(year: int, month: int) -> int {
    if month == 2 {
        if is_leap_year(year) {
            29
        } else {
            28
        }
    } else if month == 4 || month == 6 || month == 9 || month == 11 {
        30
    } else {
        31
    }
}

/// Year, month and day name a day that exists.
pub open spec fn is_calendar_date(year: int, month: int, day: int) -> bool {
    &&& min_year() <= year <= max_year()
    &&& 1 <= month <= 12
    &&& 1 <= day <= days_in_month(year, month)
}

/// Hour, minute and second name a time of day.
pub open spec fn is_time_of_day(hour: int, minute: int, second: int) -> bool {
    0 <= hour < 24 && 0 <= minute < 60 && 0 <= second < 60
}

/// `chrono::NaiveDate::from_ymd_opt`, the date handed back as its year,
/// month and day: a date exactly where the day exists and the year is
/// one that chrono can hold, and then the one that was asked for.
#[verifier::external_body]
fn checked_date(year: i32, month: u32, day: u32) -> (r: Option<Date>)
    ensures
        r == (if is_calendar_date(year as int, month as int, day as int) {
            Some(Date { year, month, day })
        } else {
            None
        }),
{
    NaiveDate::from_ymd_opt(year, month, day).map(
        |d| Date { year: d.year(), month: d.month(), day: d.day() },
    )
}

/// `chrono::NaiveTime::from_hms_opt`, the time handed back as its hour,
/// minute and second: a time exactly where the hour is below 24 and
/// minute and second are below 60, and then the one that was asked for.
#[verifier::external_body]
fn checked_time(hour: u32, minute: u32, second: u32) -> (r: Option<TimeOfDay>)
    ensures
        r == (if is_time_of_day(hour as int, minute as int, second as int) {
            Some(TimeOfDay { hour, minute, second })
        } else {
            None
        }),
{
    NaiveTime::from_hms_opt(hour, minute, second).map(
        |t| TimeOfDay { hour: t.hour(), minute: t.minute(), second: t.second() },
    )
}

impl Date {
    /// The date names a day that exists.
    pub open spec fn wf(&self) -> bool {
        is_calendar_date(self.year as int, self.month as int, self.day as int)
    }

    /// The date of the given year, month and day, if that day exists.
    pub fn from_ymd_opt(year: i32, month: u32, day: u32) -> (r: Option<Date>)
        ensures
            r == (if is_calendar_date(year as int, month as int, day as int) {
                Some(Date { year, month, day })
            } else {
                None
            }),
            r matches Some(d) ==> d.wf(),
    {
        checked_date(year, month, day)
    }
}

impl TimeOfDay {
    /// The time lies within one day.
    pub open spec fn wf(&self) -> bool {
        is_time_of_day(self.hour as int, self.minute as int, self.second as int)
    }

    /// Minutes since midnight, seconds left aside.
    pub open spec fn minute_of_day(&self) -> int {
        self.hour * 60 + self.minute
    }

    /// The time of the given hour, minute and second, if there is one.
    pub fn from_hms_opt(hour: u32, minute: u32, second: u32) -> (r: Option<TimeOfDay>)
        ensures
            r == (if is_time_of_day(hour as int, minute as int, second as int) {
                Some(TimeOfDay { hour, minute, second })
            } else {
                None
            }),
            r matches Some(t) ==> t.wf(),
    {
        checked_time(hour, minute, second)
    }
}


/// `n` as two decimal digits.
pub open spec fn two_digits(n: int) -> Seq<char> {
    seq![digit_char(n / 10), digit_char(n % 10)]
}

/// A year as ISO 8601 writes it: four digits from 0 to 9999, otherwise
/// a sign and at least four digits.
pub open spec fn year_text(year: int) -> Seq<char> {
    if 0 <= year <= 9999 {
        two_digits(year / 100) + two_digits(year % 100)
    } else if year > 9999 {
        seq!['+'] + decimal_text(year as nat)
    } else if year > -1000 {
        seq!['-'] + two_digits((-year) / 100) + two_digits((-year) % 100)
    } else {
        seq!['-'] + decimal_text((-year) as nat)
    }
}

/// A date as `YYYY-MM-DD`.
pub open spec fn iso_date_text(date: Date) -> Seq<char> {
    year_text(date.year as int) + seq!['-'] + two_digits(date.month as int) + seq!['-']
        + two_digits(date.day as int)
}

/// A time as `HH:MM:SS`.
pub open spec fn clock_text(time: TimeOfDay) -> Seq<char> {
    two_digits(time.hour as int) + seq![':'] + two_digits(time.minute as int) + seq![':']
        + two_digits(time.second as int)
}

/// Appends `n` as two decimal digits.
fn push_two_digits(s: &mut String, n: u32)
    requires
        n < 100,
    ensures
        final(s)@ == old(s)@ + two_digits(n as int),
{
    s.push((48 + (n / 10) as u8) as char);
    s.push((48 + (n % 10) as u8) as char);
    assert(s@ =~= old(s)@ + two_digits(n as int));
}

impl Date {
    /// The date as `YYYY-MM-DD`.
    pub fn to_string(&self) -> (r: String)
        requires
            self.wf(),
        ensures
            r@ == iso_date_text(*self),
    {
        let mut r = String::new();
        let year = self.year;
        if 0 <= year && year <= 9999 {
            push_two_digits(&mut r, (year / 100) as u32);
            push_two_digits(&mut r, (year % 100) as u32);
        } else if year > 9999 {
            r.push('+');
            let digits = decimal_string(year as u64);
            push_text(&mut r, digits.as_str());
        } else if year > -1000 {
            r.push('-');
            push_two_digits(&mut r, ((0 - year) / 100) as u32);
            push_two_digits(&mut r, ((0 - year) % 100) as u32);
        } else {
            r.push('-');
            let digits = decimal_string((0 - year) as u64);
            push_text(&mut r, digits.as_str());
        }
        assert(r@ =~= year_text(year as int));
        r.push('-');
        push_two_digits(&mut r, self.month);
        r.push('-');
        push_two_digits(&mut r, self.day);
        assert(r@ =~= iso_date_text(*self));
        r
    }
}

impl TimeOfDay {
    /// The time as `HH:MM:SS`.
    pub fn to_string(&self) -> (r: String)
        requires
            self.wf(),
        ensures
            r@ == clock_text(*self),
    {
        let mut r = String::new();
        push_two_digits(&mut r, self.hour);
        r.push(':');
        push_two_digits(&mut r, self.minute);
        r.push(':');
        push_two_digits(&mut r, self.second);
        assert(r@ =~= clock_text(*self));
        r
    }
}

} // verus!
