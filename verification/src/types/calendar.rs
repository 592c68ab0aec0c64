//! Dates of the `chrono` crate, to and from release dates.
use vstd::prelude::*;
use crate::types::datetime::DateTime;

verus! {

#[verifier::external_type_specification]
#[verifier::external_body]
pub struct ExNaiveDate(chrono::NaiveDate);

#[verifier::external_type_specification]
#[verifier::external_body]
pub struct ExNaiveDateTime(chrono::NaiveDateTime);

/// Whether `year` is a leap year of the Gregorian calendar, which is
/// taken to hold for all years, those before it was made too.
pub open spec fn is_leap_year(year: int) -> bool {
    year % 4 == 0 && (year % 100 != 0 || year % 400 == 0)
}

/// How many days the month `month` of the year `year` has.
pub open spec fn days_in_month(year: int, month: int) -> int {
    if month == 2 {
        if is_leap_year(year) {
            29
        } else {
            28
        }
    } else if month == 4 || month == 6 || month == 9 || month == 11 {
        30
    } else {
        31
    }
}

/// Whether the calendar of the `chrono` crate has the day `day` of the
/// month `month` of the year `year`: the year is one of those that its
/// dates hold, from -262143 to 262142, and the month has the day.
pub open spec fn date_exists(year: i32, month: u32, day: u32) -> bool {
    &&& -262143 <= year <= 262142
    &&& 1 <= month <= 12
    &&& 1 <= day <= days_in_month(year as int, month as int)
}

/// `year` of chrono's `Datelike`.
#[verifier::external_body]
fn year_of(cdt: &chrono::NaiveDateTime) -> i32 {
    chrono::Datelike::year(cdt)
}

/// `month` of chrono's `Datelike`: from 1 to 12.
#[verifier::external_body]
fn month_of(cdt: &chrono::NaiveDateTime) -> (r: u32)
    ensures
        1 <= r <= 12,
{
    chrono::Datelike::month(cdt)
}

/// `day` of chrono's `Datelike`: from 1 to 31.
#[verifier::external_body]
fn day_of(cdt: &chrono::NaiveDateTime) -> (r: u32)
    ensures
        1 <= r <= 31,
{
    chrono::Datelike::day(cdt)
}

/// `hour` of chrono's `Timelike`: from 0 to 23.
#[verifier::external_body]
fn hour_of(cdt: &chrono::NaiveDateTime) -> (r: u32)
    ensures
        r <= 23,
{
    chrono::Timelike::hour(cdt)
}

/// `minute` of chrono's `Timelike`: from 0 to 59.
#[verifier::external_body]
fn minute_of(cdt: &chrono::NaiveDateTime) -> (r: u32)
    ensures
        r <= 59,
{
    chrono::Timelike::minute(cdt)
}

/// `second` of chrono's `Timelike`: from 0 to 59.
#[verifier::external_body]
fn second_of(cdt: &chrono::NaiveDateTime) -> (r: u32)
    ensures
        r <= 59,
{
    chrono::Timelike::second(cdt)
}

/// `from_ymd_opt` of chrono's `NaiveDate`: a date if and only if the year
/// is in the range of its dates and the calendar has the day.
#[verifier::external_body]
fn date_of(year: i32, month: u32, day: u32) -> (r: Option<chrono::NaiveDate>)
    ensures
        (r is Some) == date_exists(year, month, day),
{
    chrono::NaiveDate::from_ymd_opt(year, month, day)
}

/// `and_hms_opt` of chrono's `NaiveDate`: a time of the day, for an hour
/// below 24 and a minute and a second below 60.
#[verifier::external_body]
fn at_time(date: &chrono::NaiveDate, hour: u32, min: u32, sec: u32) -> (r: Option<
    chrono::NaiveDateTime,
>)
    ensures
        (r is Some) == (hour < 24 && min < 60 && sec < 60),
{
    date.and_hms_opt(hour, min, sec)
}

impl DateTime {
    /// The date and time of chrono's date and time: every part is known.
    pub fn from_naive(cdt: &chrono::NaiveDateTime) -> (r: DateTime)
        ensures
            r.year is Some && r.month is Some && r.day is Some && r.hour is Some
                && r.minute is Some && r.second is Some,
            1 <= r.month->0 <= 12,
            1 <= r.day->0 <= 31,
            r.hour->0 <= 23,
            r.minute->0 <= 59,
            r.second->0 <= 59,
    {
        DateTime {
            year: Some(year_of(cdt) as i64),
            month: Some(month_of(cdt) as u8),
            day: Some(day_of(cdt) as u8),
            hour: Some(hour_of(cdt) as u8),
            minute: Some(minute_of(cdt) as u8),
            second: Some(second_of(cdt) as u8),
        }
    }

    /// The year as 32 bits hold it, and the other parts; what is not
    /// known counts as the start of its range.
    pub open spec fn parts(self) -> (i32, u32, u32, u32, u32, u32) {
        (
            (match self.year {
                Some(y) => y,
                None => 0,
            }) as i32,
            (match self.month {
                Some(m) => m,
                None => 1,
            }) as u32,
            (match self.day {
                Some(d) => d,
                None => 1,
            }) as u32,
            (match self.hour {
                Some(h) => h,
                None => 0,
            }) as u32,
            (match self.minute {
                Some(m) => m,
                None => 0,
            }) as u32,
            (match self.second {
                Some(s) => s,
                None => 0,
            }) as u32,
        )
    }

    /// Whether the date is one of the calendar, at a time of the day.
    pub open spec fn is_real(self) -> bool {
        let p = self.parts();
        date_exists(p.0, p.1, p.2) && p.3 < 24 && p.4 < 60 && p.5 < 60
    }

    /// The date and time without a time zone, if the calendar has it.
    pub fn to_naive(&self) -> (r: Option<chrono::NaiveDateTime>)
        ensures
            (r is Some) == self.is_real(),
    {
        let year: i64 = match self.year {
            Some(y) => y,
            None => 0,
        };
        let month: u8 = match self.month {
            Some(m) => m,
            None => 1,
        };
        let day: u8 = match self.day {
            Some(d) => d,
            None => 1,
        };
        let hour: u8 = match self.hour {
            Some(h) => h,
            None => 0,
        };
        let minute: u8 = match self.minute {
            Some(m) => m,
            None => 0,
        };
        let second: u8 = match self.second {
            Some(s) => s,
            None => 0,
        };
        match date_of(
            #[verifier::truncate]
            (year as i32),
            month as u32,
            day as u32,
        ) {
            None => None,
            Some(date) => at_time(&date, hour as u32, minute as u32, second as u32),
        }
    }
}

impl From<chrono::NaiveDateTime> for DateTime {
    fn from(cdt: chrono::NaiveDateTime) -> (r: DateTime) {
        DateTime::from_naive(&cdt)
    }
}

impl vstd::std_specs::convert::FromSpecImpl<chrono::NaiveDateTime> for DateTime {
    open spec fn obeys_from_spec() -> bool {
        false
    }

    open spec fn from_spec(cdt: chrono::NaiveDateTime) -> DateTime {
        DateTime { year: None, month: None, day: None, hour: None, minute: None, second: None }
    }
}

impl From<DateTime> for Option<chrono::NaiveDateTime> {
    fn from(dt: DateTime) -> (r: Option<chrono::NaiveDateTime>) {
        dt.to_naive()
    }
}

impl vstd::std_specs::convert::FromSpecImpl<DateTime> for Option<chrono::NaiveDateTime> {
    open spec fn obeys_from_spec() -> bool {
        false
    }

    open spec fn from_spec(dt: DateTime) -> Option<chrono::NaiveDateTime> {
        None
    }
}

} // verus!
