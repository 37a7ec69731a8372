//! The time of the bar that follows a given one.
use vstd::prelude::*;
use chrono::{Datelike, Local, NaiveDate, NaiveDateTime, TimeDelta, Timelike};
use crate::quotes::base_consts::QuotesError;

verus! {

/// A calendar date and a time of day. `nanosecond` counts from the whole
/// second and reaches past 999 999 999 only in a leap second.
#[derive(Debug, Clone, Copy, PartialEq, Eq, Structural)]
pub struct DateTimeParts {
    pub year: i32,
    pub month: u32,
    pub day: u32,
    pub hour: u32,
    pub minute: u32,
    pub second: u32,
    pub nanosecond: u32,
}

/// The ranges that the calendar gives its fields.
pub open spec fn parts_in_range(t: DateTimeParts) -> bool {
    &&& 1 <= t.month <= 12
    &&& 1 <= t.day <= 31
    &&& t.hour <= 23
    &&& t.minute <= 59
    &&& t.second <= 59
}

/// What reading `"%Y-%m-%d %H:%M:%S"` gives for a text.
pub uninterp spec fn chrono_parse(text: Seq<char>) -> Option<DateTimeParts>;

/// What adding a number of minutes to a date and time gives, or `None` past
/// the calendar's range (or for fields that name no date and time).
pub uninterp spec fn chrono_add_minutes(t: DateTimeParts, minutes: int) -> Option<DateTimeParts>;

/// A leap year of the proleptic Gregorian calendar (year 0 is one).
pub open spec fn is_leap_year(year: int) -> bool {
    (year % 4 == 0 && year % 100 != 0) || year % 400 == 0
}

/// The number of days of a month.
pub open spec fn days_in_month(year: int, month: int) -> int {
    if month == 2 {
        if is_leap_year(year) { 29 } else { 28 }
    } else if month == 4 || month == 6 || month == 9 || month == 11 {
        30
    } else {
        31
    }
}

/// Fields that name a date and time: a year the calendar reaches
/// (-262143 to 262142), a day the month has, a time of day, and a
/// nanosecond past 999 999 999 only in the last second of a minute.
pub open spec fn names_datetime(t: DateTimeParts) -> bool {
    &&& -262143 <= t.year <= 262142
    &&& 1 <= t.month <= 12
    &&& 1 <= t.day <= days_in_month(t.year as int, t.month as int)
    &&& t.hour < 24
    &&& t.minute < 60
    &&& t.second < 60
    &&& (t.nanosecond < 1_000_000_000 || (t.second == 59 && t.nanosecond < 2_000_000_000))
}

/// Days from 1970-01-01 to a date of the proleptic Gregorian calendar:
/// whole 400-year eras from 0000-03-01, then days within the era, counted
/// from March so that a leap day ends the year.
pub open spec fn days_from_civil(year: int, month: int, day: int) -> int {
    let y = if month <= 2 { year - 1 } else { year };
    let era = y / 400;
    let yoe = y - era * 400;
    let mp = if month > 2 { month - 3 } else { month + 9 };
    let doy = (153 * mp + 2) / 5 + day - 1;
    let doe = yoe * 365 + yoe / 4 - yoe / 100 + doy;
    era * 146097 + doe - 719468
}

/// The seconds since 1970-01-01 00:00:00 of a date and time; a leap second
/// counts as the second before it.
pub open spec fn epoch_seconds(t: DateTimeParts) -> int {
    days_from_civil(t.year as int, t.month as int, t.day as int) * 86400
        + t.hour * 3600 + t.minute * 60 + t.second
}

/// Calls `chrono::NaiveDateTime::parse_from_str` with the format
/// `"%Y-%m-%d %H:%M:%S"` and reads the fields back. The result is only
/// named, with the fields' documented ranges.
#[verifier::external_body]
fn parse_datetime(text: &str) -> (r: Option<DateTimeParts>)
    ensures
        r == chrono_parse(text@),
        r matches Some(t) ==> parts_in_range(t),
{
    let t = NaiveDateTime::parse_from_str(text, "%Y-%m-%d %H:%M:%S").ok()?;
    Some(DateTimeParts {
        year: t.year(),
        month: t.month(),
        day: t.day(),
        hour: t.hour(),
        minute: t.minute(),
        second: t.second(),
        nanosecond: t.nanosecond(),
    })
}

/// Calls `chrono::NaiveDateTime::checked_add_signed` with
/// `TimeDelta::minutes`, the date and time built from the fields. The
/// result is only named, with the fields' documented ranges; a number of
/// minutes that `TimeDelta::minutes` refuses is kept out by `requires`.
#[verifier::external_body]
fn add_minutes(t: DateTimeParts, minutes: i64) -> (r: Option<DateTimeParts>)
    requires
        -1_000_000_000 <= minutes <= 1_000_000_000,
    ensures
        r == chrono_add_minutes(t, minutes as int),
        r matches Some(u) ==> parts_in_range(u),
{
    let date = NaiveDate::from_ymd_opt(t.year, t.month, t.day)?;
    let time = date.and_hms_nano_opt(t.hour, t.minute, t.second, t.nanosecond)?;
    let u = time.checked_add_signed(TimeDelta::minutes(minutes))?;
    Some(DateTimeParts {
        year: u.year(),
        month: u.month(),
        day: u.day(),
        hour: u.hour(),
        minute: u.minute(),
        second: u.second(),
        nanosecond: u.nanosecond(),
    })
}

/// Calls `and_utc().timestamp()` on the date and time built from the fields:
/// `NaiveDate::from_ymd_opt` and `and_hms_nano_opt` accept exactly the
/// fields that name a date and time, and the timestamp counts the days from
/// 1970-01-01 times 86 400 plus the whole seconds of the day.
#[verifier::external_body]
fn timestamp(t: DateTimeParts) -> (r: Option<i64>)
    ensures
        r == (if names_datetime(t) { Some(epoch_seconds(t) as i64) } else { None::<i64> }),
{
    let date = NaiveDate::from_ymd_opt(t.year, t.month, t.day)?;
    let time = date.and_hms_nano_opt(t.hour, t.minute, t.second, t.nanosecond)?;
    Some(time.and_utc().timestamp())
}

/// Calls `chrono::Local::now().naive_local()`: the local date and time,
/// which nothing but the fields' documented ranges is claimed of.
#[verifier::external_body]
fn local_now() -> (r: DateTimeParts)
    ensures
        parts_in_range(r),
{
    let u = Local::now().naive_local();
    DateTimeParts {
        year: u.year(),
        month: u.month(),
        day: u.day(),
        hour: u.hour(),
        minute: u.minute(),
        second: u.second(),
        nanosecond: u.nanosecond(),
    }
}

/// Minutes from one bar to the next: 5, 15 and 30 minutes, an hour, a day,
/// a week, 30 days, a minute (categories 7 and 8), a day, 90 days and 365
/// days; none for other categories.
pub open spec fn category_step(category: i32) -> int {
    if category == 0 {
        5
    } else if category == 1 {
        15
    } else if category == 2 {
        30
    } else if category == 3 {
        60
    } else if category == 4 || category == 9 {
        1440
    } else if category == 5 {
        10080
    } else if category == 6 {
        43200
    } else if category == 7 || category == 8 {
        1
    } else if category == 10 {
        129600
    } else if category == 11 {
        525600
    } else {
        0
    }
}

/// Categories counted in minutes within a trading day.
pub open spec fn is_minute_category(category: i32) -> bool {
    category < 4 || category == 7 || category == 8
}

/// `t` is later than `now` by their timestamps, both naming a date and time.
pub open spec fn later_than(t: DateTimeParts, now: DateTimeParts) -> bool {
    &&& names_datetime(t)
    &&& names_datetime(now)
    &&& epoch_seconds(t) > epoch_seconds(now)
}

/// The fields of a bar time.
pub open spec fn bar_fields_of(t: DateTimeParts, hour: int, minute: int) -> (i32, i32, i32, i32, i32) {
    (t.year, t.month as i32, t.day as i32, hour as i32, minute as i32)
}

/// The time of the bar after the one at `t` (already moved by the
/// category's step). For minute categories, a time past 15:00 moves on by a
/// day and thirty minutes and reads its hour eighteen hours later; for the
/// others, a time later than `now` becomes `now`, and an hour past 15 reads
/// as 15:00.
pub open spec fn next_from(category: i32, t: DateTimeParts, now: DateTimeParts) -> Result<(i32, i32, i32, i32, i32), QuotesError> {
    if is_minute_category(category) {
        if (t.hour >= 15 && t.minute > 0) || t.hour > 15 {
            match chrono_add_minutes(t, 1440) {
                Some(t2) => match chrono_add_minutes(t2, 30) {
                    Some(t3) => Ok(bar_fields_of(t3, (t3.hour + 18) % 24, t3.minute as int)),
                    None => Err(QuotesError::InvalidDateTime),
                },
                None => Err(QuotesError::InvalidDateTime),
            }
        } else {
            Ok(bar_fields_of(t, t.hour as int, t.minute as int))
        }
    } else {
        let u = if later_than(t, now) { now } else { t };
        if u.hour > 15 {
            Ok(bar_fields_of(u, 15, 0))
        } else {
            Ok(bar_fields_of(u, u.hour as int, u.minute as int))
        }
    }
}

/// `get_datetime_now` for a given current time: the text read as a date and
/// time, moved by the category's step, then as `next_from` says. A text that
/// does not read, or a move past the calendar's range, is `InvalidDateTime`.
pub open spec fn spec_next_bar_time(category: i32, lasttime: Seq<char>, now: DateTimeParts) -> Result<(i32, i32, i32, i32, i32), QuotesError> {
    match chrono_parse(lasttime) {
        None => Err(QuotesError::InvalidDateTime),
        Some(t0) => {
            let t1 = if category_step(category) == 0 { Some(t0) } else { chrono_add_minutes(t0, category_step(category)) };
            match t1 {
                None => Err(QuotesError::InvalidDateTime),
                Some(t) => next_from(category, t, now),
            }
        },
    }
}

fn category_step_exec(category: i32) -> (r: i64)
    ensures
        r == category_step(category),
{
    match category {
        0 => 5,
        1 => 15,
        2 => 30,
        3 => 60,
        4 | 9 => 1440,
        5 => 10080,
        6 => 43200,
        7 | 8 => 1,
        10 => 129600,
        11 => 525600,
        _ => 0,
    }
}

/// The time of the bar after the one at `lasttime`, given the current time.
pub fn next_bar_time(category: i32, lasttime: &str, now: DateTimeParts) -> (r: Result<(i32, i32, i32, i32, i32), QuotesError>)
    requires
        parts_in_range(now),
    ensures
        r == spec_next_bar_time(category, lasttime@, now),
{
    let t0 = match parse_datetime(lasttime) {
        Some(t) => t,
        None => return Err(QuotesError::InvalidDateTime),
    };
    let step = category_step_exec(category);
    let t = if step == 0 {
        t0
    } else {
        match add_minutes(t0, step) {
            Some(t) => t,
            None => return Err(QuotesError::InvalidDateTime),
        }
    };
    if category < 4 || category == 7 || category == 8 {
        if (t.hour >= 15 && t.minute > 0) || t.hour > 15 {
            let t2 = match add_minutes(t, 1440) {
                Some(u) => u,
                None => return Err(QuotesError::InvalidDateTime),
            };
            let t3 = match add_minutes(t2, 30) {
                Some(u) => u,
                None => return Err(QuotesError::InvalidDateTime),
            };
            Ok((t3.year, t3.month as i32, t3.day as i32, ((t3.hour + 18) % 24) as i32, t3.minute as i32))
        } else {
            Ok((t.year, t.month as i32, t.day as i32, t.hour as i32, t.minute as i32))
        }
    } else {
        let later = match (timestamp(t), timestamp(now)) {
            (Some(a), Some(b)) => a > b,
            _ => false,
        };
        let u = if later { now } else { t };
        if u.hour > 15 {
            Ok((u.year, u.month as i32, u.day as i32, 15, 0))
        } else {
            Ok((u.year, u.month as i32, u.day as i32, u.hour as i32, u.minute as i32))
        }
    }
}

/// The time of the bar after the one at `lasttime`, against the local clock:
/// `next_bar_time` at some current time.
pub fn get_datetime_now(category: i32, lasttime: &str) -> (r: Result<(i32, i32, i32, i32, i32), QuotesError>)
    ensures
        exists|now: DateTimeParts| parts_in_range(now) && r == #[trigger] spec_next_bar_time(category, lasttime@, now),
{
    let now = local_now();
    let r = next_bar_time(category, lasttime, now);
    assert(parts_in_range(now) && r == spec_next_bar_time(category, lasttime@, now));
    r
}

} // verus!
