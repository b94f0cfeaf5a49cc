//! Points in time, and the days that they fall on.
use chrono::Datelike;
use vstd::prelude::*;

use crate::number;

verus! {

/// A point in time: whole seconds since 1970-01-01T00:00:00Z, and nanoseconds behind them.
#[derive(Clone, Copy, Debug, PartialEq, Eq, Structural)]
pub struct Timestamp {
    pub secs: i64,
    pub nanos: u32,
}

/// A day of the proleptic Gregorian calendar.
#[derive(Clone, Copy, Debug, PartialEq, Eq, Structural)]
pub struct Date {
    pub year: i32,
    pub month: u32,
    pub day: u32,
}

/// Whether a year is a leap year.
pub open spec fn is_leap(year: int) -> bool {
    year % 4 == 0 && (year % 100 != 0 || year % 400 == 0)
}

/// The number of days in a month.
pub open spec fn days_in_month(year: int, month: int) -> int {
    if month == 2 {
        if is_leap(year) {
            29
        } else {
            28
        }
    } else if month == 4 || month == 6 || month == 9 || month == 11 {
        30
    } else {
        31
    }
}

/// The number of days of a year that come before a month.
pub open spec fn days_before_month(year: int, month: int) -> int
    decreases month,
{
    if month <= 1 {
        0
    } else {
        days_before_month(year, month - 1) + days_in_month(year, month - 1)
    }
}

/// The number of days from 0001-01-01 to the first day of a year.
pub open spec fn days_before_year(year: int) -> int {
    365 * (year - 1) + (year - 1) / 4 - (year - 1) / 100 + (year - 1) / 400
}

/// Whether the date is a day of the calendar.
pub open spec fn is_day(d: Date) -> bool {
    1 <= d.month <= 12 && 1 <= d.day <= days_in_month(d.year as int, d.month as int)
}

/// The number of days from 1970-01-01 to a date.
pub open spec fn day_number(d: Date) -> int {
    days_before_year(d.year as int) + days_before_month(d.year as int, d.month as int) + d.day - 1
        - 719162
}

/// Whether the date is the day, in UTC, of the given second.
pub open spec fn is_date_of(d: Date, secs: int) -> bool {
    is_day(d) && day_number(d) == secs / 86400
}

/// Whether the second falls on a day that `chrono` can tell: from the first day of the year -262143
/// to the last day of the year 262142.
pub open spec fn in_calendar(secs: int) -> bool {
    days_before_year(-262143) - 719162 <= secs / 86400 < days_before_year(262143) - 719162
}

/// `chrono::DateTime::<Utc>::from_timestamp`, and of what it returns `date_naive` with its `year`,
/// `month` and `day`: there is a date exactly when the second is in the range of the calendar, and
/// it is the day of that second.
#[verifier::external_body]
pub(crate) fn utc_date(secs: i64) -> (r: Option<Date>)
    ensures
        r is Some <==> in_calendar(secs as int),
        r matches Some(d) ==> is_date_of(d, secs as int),
{
    let day = chrono::DateTime::from_timestamp(secs, 0)?.date_naive();
    Some(Date { year: day.year(), month: day.month(), day: day.day() })
}

/// A year as `%Y` writes it: four digits, and a sign where the year is not among 0 to 9999.
pub open spec fn signed_year(year: int) -> Seq<char> {
    if 0 <= year <= 9999 {
        number::padded_of(year as nat, 4)
    } else if year > 0 {
        "+"@ + number::padded_of(year as nat, 4)
    } else {
        "-"@ + number::padded_of((-year) as nat, 4)
    }
}

/// The month of a date as `%Y-%m` writes it.
pub open spec fn month_format(d: Date) -> Seq<char> {
    signed_year(d.year as int) + "-"@ + number::padded_of(d.month as nat, 2)
}

/// A date as `%Y-%m-%d` writes it.
pub open spec fn day_format(d: Date) -> Seq<char> {
    month_format(d) + "-"@ + number::padded_of(d.day as nat, 2)
}

/// `chrono::DateTime::<Utc>::format` with one of the two formats `%Y-%m` and `%Y-%m-%d`, turned
/// into a string: the day of the second, written in that format.
#[verifier::external_body]
pub(crate) fn format_utc(secs: i64, format: &str) -> (r: String)
    requires
        in_calendar(secs as int),
        format@ == "%Y-%m"@ || format@ == "%Y-%m-%d"@,
    ensures
        format@ == "%Y-%m"@ ==> (forall|d: Date| is_date_of(d, secs as int) ==> r@ == #[trigger] month_format(d)),
        format@ == "%Y-%m-%d"@ ==> (forall|d: Date| is_date_of(d, secs as int) ==> r@ == #[trigger] day_format(d)),
{
    let time = chrono::DateTime::from_timestamp(secs, 0).unwrap_or_default();
    time.format(format).to_string()
}

/// The point in time of a whole second that git or the file system tells, or `now` where that
/// second is not in the range of the calendar.
pub open spec fn second_or(secs: int, now: Timestamp) -> Timestamp {
    if in_calendar(secs) {
        Timestamp { secs: secs as i64, nanos: 0 }
    } else {
        now
    }
}

/// Whether the second falls on a day of the calendar.
pub fn falls_on_a_day(secs: i64) -> (r: bool)
    ensures
        r == in_calendar(secs as int),
{
    utc_date(secs).is_some()
}

/// The point in time of a commit.
pub fn commit_time(secs: i64, now: Timestamp) -> (r: Timestamp)
    ensures
        r == second_or(secs as int, now),
{
    match utc_date(secs) {
        Some(_) => Timestamp { secs, nanos: 0 },
        None => now,
    }
}

proof fn year_steps(year: int)
    ensures
        days_before_year(year + 1) - days_before_year(year) == if is_leap(year) {
            366int
        } else {
            365int
        },
{
}

proof fn years_grow(a: int, b: int)
    requires
        a <= b,
    ensures
        days_before_year(a) <= days_before_year(b),
    decreases b - a,
{
    if a < b {
        years_grow(a, b - 1);
        year_steps(b - 1);
    }
}

proof fn months_grow(year: int, a: int, b: int)
    requires
        1 <= a <= b,
    ensures
        days_before_month(year, a) <= days_before_month(year, b),
    decreases b - a,
{
    if a < b {
        months_grow(year, a, b - 1);
    }
}

proof fn month_fits(d: Date)
    requires
        is_day(d),
    ensures
        0 <= days_before_month(d.year as int, d.month as int),
        days_before_month(d.year as int, d.month as int) + d.day <= days_before_year(d.year + 1)
            - days_before_year(d.year as int),
{
    let y = d.year as int;
    year_steps(y);
    months_grow(y, 1, d.month as int);
    months_grow(y, d.month as int, 12);
    reveal_with_fuel(days_before_month, 13);
    assert(days_before_month(y, 12) + 31 == if is_leap(y) {
        366int
    } else {
        365int
    });
    if d.month < 12 {
        months_grow(y, d.month + 1, 12);
    }
}

/// No two days of the calendar have the same number, so a second falls on one day only.
pub proof fn date_is_unique(a: Date, b: Date, secs: int)
    requires
        is_date_of(a, secs),
        is_date_of(b, secs),
    ensures
        a == b,
{
    month_fits(a);
    month_fits(b);
    if a.year < b.year {
        years_grow(a.year + 1, b.year as int);
    } else if b.year < a.year {
        years_grow(b.year + 1, a.year as int);
    } else {
        if a.month < b.month {
            months_grow(a.year as int, a.month + 1, b.month as int);
        } else if b.month < a.month {
            months_grow(a.year as int, b.month + 1, a.month as int);
        }
    }
}

/// The calendar runs on without a gap: 1970-01-01 is day zero, the day behind a day has the next
/// number, and so have the first of a month behind the last of the one before and the first of
/// January behind the last of December.
pub proof fn days_follow_one_another(year: i32, month: u32, day: u32)
    requires
        1 <= month <= 12,
        year < i32::MAX,
        day < 31,
    ensures
        day_number(Date { year: 1970, month: 1, day: 1 }) == 0,
        day_number(Date { year, month, day: (day + 1) as u32 }) == day_number(
            Date { year, month, day },
        ) + 1,
        month < 12 ==> day_number(Date { year, month: (month + 1) as u32, day: 1 }) == day_number(
            Date { year, month, day: days_in_month(year as int, month as int) as u32 },
        ) + 1,
        day_number(Date { year: (year + 1) as i32, month: 1, day: 1 }) == day_number(
            Date { year, month: 12, day: 31 },
        ) + 1,
{
    reveal_with_fuel(days_before_month, 13);
    year_steps(year as int);
}

/// A month has thirty-one days, but April, June, September and November have thirty, and February
/// twenty-eight, or twenty-nine in a leap year: one that four divides, unless it is a century that
/// four hundred does not divide.
pub proof fn months_have_their_lengths(year: int)
    ensures
        days_in_month(year, 1) == 31 && days_in_month(year, 3) == 31 && days_in_month(year, 5) == 31
            && days_in_month(year, 7) == 31 && days_in_month(year, 8) == 31 && days_in_month(year, 10)
            == 31 && days_in_month(year, 12) == 31,
        days_in_month(year, 4) == 30 && days_in_month(year, 6) == 30 && days_in_month(year, 9) == 30
            && days_in_month(year, 11) == 30,
        year % 4 != 0 ==> days_in_month(year, 2) == 28,
        year % 4 == 0 && year % 100 != 0 ==> days_in_month(year, 2) == 29,
        year % 100 == 0 && year % 400 != 0 ==> days_in_month(year, 2) == 28,
        year % 400 == 0 ==> days_in_month(year, 2) == 29,
{
}

/// A second of the calendar is a point in time as it is; any other stands for now.
pub proof fn seconds_of_the_calendar_are_kept(secs: i64, now: Timestamp)
    ensures
        in_calendar(secs as int) ==> second_or(secs as int, now) == (Timestamp { secs, nanos: 0 }),
        !in_calendar(secs as int) ==> second_or(secs as int, now) == now,
        0 <= secs <= 4102444800 ==> in_calendar(secs as int),
{
}

} // verus!
