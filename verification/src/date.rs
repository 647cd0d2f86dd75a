//! Calendar dates and timestamps as plain values.
use vstd::prelude::*;
use chrono::Datelike;

verus! {

/// A calendar date.
#[derive(Debug, Clone, Copy, PartialEq, Eq, Hash, Structural)]
pub struct Date {
    pub year: i32,
    pub month: u32,
    pub day: u32,
}

/// A date with a time of day.
#[derive(Debug, Clone, Copy, PartialEq, Eq, Hash, Structural)]
pub struct DateTime {
    pub date: Date,
    pub hour: u32,
    pub minute: u32,
    pub second: u32,
    pub nanosecond: u32,
}

impl Date {
    pub fn new(year: i32, month: u32, day: u32) -> (r: Date)
        ensures
            r == (Date { year, month, day }),
    {
        Date { year, month, day }
    }
}

/// What chrono's `NaiveDate::parse_from_str` gives for a text with the
/// format `%Y-%m-%d`: the year, month and day it reads, or the message its
/// parse error is displayed as.
pub uninterp spec fn parsed_ymd(s: Seq<char>) -> Result<(i32, u32, u32), Seq<char>>;

/// Reads a `%Y-%m-%d` date with chrono's `NaiveDate::parse_from_str`; a
/// date chrono gives is a valid one.
#[verifier::external_body]
pub(crate) fn parse_ymd(s: &str) -> (r: Result<(i32, u32, u32), String>)
    ensures
        match r {
            Ok(ymd) => parsed_ymd(s@) == Ok::<(i32, u32, u32), Seq<char>>(ymd) && valid_date(Date { year: ymd.0, month: ymd.1, day: ymd.2 }),
            Err(m) => parsed_ymd(s@) == Err::<(i32, u32, u32), Seq<char>>(m@),
        },
{
    match chrono::NaiveDate::parse_from_str(s, "%Y-%m-%d") {
        Ok(d) => Ok((d.year(), d.month(), d.day())),
        Err(e) => Err(e.to_string()),
    }
}

/// The date read from a `%Y-%m-%d` text, or the message of why none was read.
pub fn parse_date(s: &str) -> (r: Result<Date, String>)
    ensures
        match r {
            Ok(d) => date_of(parsed_ymd(s@)) == Ok::<Date, Seq<char>>(d) && valid_date(d),
            Err(m) => date_of(parsed_ymd(s@)) == Err::<Date, Seq<char>>(m@),
        },
{
    match parse_ymd(s) {
        Ok((y, m, d)) => Ok(Date { year: y, month: m, day: d }),
        Err(e) => Err(e),
    }
}

/// The date of what the parser gives.
pub open spec fn date_of(ymd: Result<(i32, u32, u32), Seq<char>>) -> Result<Date, Seq<char>> {
    match ymd {
        Ok((y, m, d)) => Ok(Date { year: y, month: m, day: d }),
        Err(e) => Err(e),
    }
}

/// The text chrono's `NaiveDate::format` writes for a year, month and day
/// under a format.
pub uninterp spec fn formatted_date(fmt: Seq<char>, year: i32, month: u32, day: u32) -> Seq<char>;

/// The `%Y-%m-%d` text of a year, month and day.
pub open spec fn formatted_ymd(year: i32, month: u32, day: u32) -> Seq<char> {
    formatted_date("%Y-%m-%d"@, year, month, day)
}

/// The `%Y%m%d` text of a year, month and day.
pub open spec fn formatted_compact_ymd(year: i32, month: u32, day: u32) -> Seq<char> {
    formatted_date("%Y%m%d"@, year, month, day)
}

/// Writes a date under one of the two formats the library uses, `%Y-%m-%d`
/// or `%Y%m%d` (chrono's `NaiveDate::format`).
#[verifier::external_body]
pub(crate) fn format_date(d: Date, fmt: &str) -> (r: String)
    requires
        valid_date(d),
        fmt@ == "%Y-%m-%d"@ || fmt@ == "%Y%m%d"@,
    ensures
        r@ == formatted_date(fmt@, d.year, d.month, d.day),
{
    match chrono::NaiveDate::from_ymd_opt(d.year, d.month, d.day) {
        Some(n) => n.format(fmt).to_string(),
        None => String::new(),
    }
}

/// The year, month and day that chrono's `NaiveDate::checked_add_days` gives
/// for a date and a number of days, or nothing where it is out of range.
pub uninterp spec fn date_plus_days(year: i32, month: u32, day: u32, days: u64) -> Option<(i32, u32, u32)>;

/// The year, month and day that chrono's `NaiveDate::checked_sub_days` gives
/// for a date and a number of days, or nothing where it is out of range.
pub uninterp spec fn date_minus_days(year: i32, month: u32, day: u32, days: u64) -> Option<(i32, u32, u32)>;

/// The date of what chrono gives, if anything.
pub open spec fn date_of_ymd(ymd: Option<(i32, u32, u32)>) -> Option<Date> {
    match ymd {
        Some((y, m, d)) => Some(Date { year: y, month: m, day: d }),
        None => None,
    }
}

/// The date `days` days after `d` (chrono's `NaiveDate::checked_add_days`);
/// a date chrono gives is a valid one.
#[verifier::external_body]
pub(crate) fn add_days(d: Date, days: u64) -> (r: Option<Date>)
    requires
        valid_date(d),
    ensures
        r == date_of_ymd(date_plus_days(d.year, d.month, d.day, days)),
        r matches Some(x) ==> valid_date(x),
{
    match chrono::NaiveDate::from_ymd_opt(d.year, d.month, d.day) {
        Some(n) => match n.checked_add_days(chrono::Days::new(days)) {
            Some(x) => Some(Date { year: x.year(), month: x.month(), day: x.day() }),
            None => None,
        },
        None => None,
    }
}

/// The date `days` days before `d` (chrono's `NaiveDate::checked_sub_days`);
/// a date chrono gives is a valid one.
#[verifier::external_body]
pub(crate) fn sub_days(d: Date, days: u64) -> (r: Option<Date>)
    requires
        valid_date(d),
    ensures
        r == date_of_ymd(date_minus_days(d.year, d.month, d.day, days)),
        r matches Some(x) ==> valid_date(x),
{
    match chrono::NaiveDate::from_ymd_opt(d.year, d.month, d.day) {
        Some(n) => match n.checked_sub_days(chrono::Days::new(days)) {
            Some(x) => Some(Date { year: x.year(), month: x.month(), day: x.day() }),
            None => None,
        },
        None => None,
    }
}

/// The first publication date a job searches by default: 30 days before
/// `today`, which must have such a date.
pub fn default_from_date(today: Date) -> (r: Date)
    requires
        valid_date(today),
        date_minus_days(today.year, today.month, today.day, 30) is Some,
    ensures
        Some(r) == date_of_ymd(date_minus_days(today.year, today.month, today.day, 30)),
        valid_date(r),
{
    match sub_days(today, 30) {
        Some(d) => d,
        None => today,
    }
}

/// The last publication date a job searches by default: 60 days after
/// `today`, which must have such a date.
pub fn default_to_date(today: Date) -> (r: Date)
    requires
        valid_date(today),
        date_plus_days(today.year, today.month, today.day, 60) is Some,
    ensures
        Some(r) == date_of_ymd(date_plus_days(today.year, today.month, today.day, 60)),
        valid_date(r),
{
    match add_days(today, 60) {
        Some(d) => d,
        None => today,
    }
}

/// The default range of publication dates for `today`: from 30 days before
/// to 60 days after; `None` where either date is out of chrono's range.
pub fn default_dates(today: Date) -> (r: Option<(Date, Date)>)
    requires
        valid_date(today),
    ensures
        match (date_of_ymd(date_minus_days(today.year, today.month, today.day, 30)),
            date_of_ymd(date_plus_days(today.year, today.month, today.day, 60))) {
            (Some(f), Some(t)) => r == Some((f, t)),
            _ => r is None,
        },
{
    if sub_days(today, 30).is_none() || add_days(today, 60).is_none() {
        return None;
    }
    Some((default_from_date(today), default_to_date(today)))
}

pub open spec fn is_leap_year(y: int) -> bool {
    (y % 4 == 0 && y % 100 != 0) || y % 400 == 0
}

pub open spec fn days_in_month(y: int, m: int) -> int {
    if m == 2 {
        if is_leap_year(y) { 29 } else { 28 }
    } else if m == 4 || m == 6 || m == 9 || m == 11 {
        30
    } else {
        31
    }
}

/// A date of the proleptic Gregorian calendar within chrono's range of years.
pub open spec fn valid_date(d: Date) -> bool {
    &&& -262143 <= d.year <= 262142
    &&& 1 <= d.month <= 12
    &&& 1 <= d.day <= days_in_month(d.year as int, d.month as int)
}

} // verus!
