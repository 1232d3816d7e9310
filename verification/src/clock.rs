//! Conversions between Unix timestamps and calendar dates, made by the
//! `time` crate.
//!
//! The functions here are the only ones whose contracts are taken on trust:
//! each states, over the day numbers of [`crate::calendar`], what the `time`
//! crate computes. All of them work in UTC.

use crate::calendar::{weekday_of_day, CivilDate, FIRST_DAY, LAST_DAY};
use vstd::prelude::*;

verus! {

/// The error of the `time` crate for a component out of range.
#[verifier::external_type_specification]
#[verifier::external_body]
pub struct ExComponentRange(time::error::ComponentRange);

/// A date together with its day of the week, 1 = Monday .. 7 = Sunday.
#[derive(Clone, Copy, Debug, PartialEq, Eq, Structural)]
pub struct CivilDay {
    pub date: CivilDate,
    pub weekday: u8,
}

/// The UTC date and weekday of a Unix timestamp.
///
/// Calls `time::OffsetDateTime::from_unix_timestamp` and reads the year,
/// month, day and weekday of the result. Trusted: the call succeeds exactly
/// for timestamps within the years -9999..=9999, and the date it gives is
/// the one whose day number is the timestamp divided by 86 400, rounded
/// down; the weekday is that of the same day.
#[verifier::external_body]
pub(crate) fn utc_day_of_timestamp(timestamp: i64) -> (r: Result<
    CivilDay,
    time::error::ComponentRange,
>)
    ensures
        r is Ok <==> FIRST_DAY * 86_400 <= timestamp < (LAST_DAY + 1) * 86_400,
        r matches Ok(today) ==> {
            &&& today.date.valid()
            &&& today.date.day_number() == timestamp as int / 86_400
            &&& today.weekday == weekday_of_day(timestamp as int / 86_400)
        },
{
    let moment = time::OffsetDateTime::from_unix_timestamp(timestamp)?;
    Ok(
        CivilDay {
            date: CivilDate {
                year: moment.year(),
                month: u8::from(moment.month()),
                day: moment.day(),
            },
            weekday: moment.weekday().number_from_monday(),
        },
    )
}

/// The Unix timestamp of midnight UTC at the start of `date`.
///
/// Calls `time::Date::from_calendar_date` and takes the Unix timestamp of
/// the date's midnight in UTC. Trusted: the date is accepted exactly when it
/// is valid, and the timestamp is its day number times 86 400.
#[verifier::external_body]
pub(crate) fn utc_midnight_timestamp(date: CivilDate) -> (r: Result<
    i64,
    time::error::ComponentRange,
>)
    ensures
        r is Ok <==> date.valid(),
        r matches Ok(timestamp) ==> timestamp == date.day_number() * 86_400,
{
    let month = time::Month::try_from(date.month)?;
    let day = time::Date::from_calendar_date(date.year, month, date.day)?;
    Ok(day.midnight().assume_utc().unix_timestamp())
}

/// The date `days` days after `date`, or `None` past the end of the calendar.
///
/// Calls `time::Date::checked_add` with a duration of whole days. Trusted:
/// the result is the date whose day number is that of `date` plus `days`,
/// and there is one exactly when that number belongs to a year in
/// -9999..=9999.
#[verifier::external_body]
pub(crate) fn date_plus_days(date: CivilDate, days: i32) -> (r: Option<CivilDate>)
    requires
        date.valid(),
    ensures
        r is Some <==> FIRST_DAY <= date.day_number() + days <= LAST_DAY,
        r matches Some(later) ==> later.valid() && later.day_number() == date.day_number() + days,
{
    let month = time::Month::try_from(date.month).ok()?;
    let start = time::Date::from_calendar_date(date.year, month, date.day).ok()?;
    let later = start.checked_add(time::Duration::days(i64::from(days)))?;
    Some(CivilDate { year: later.year(), month: u8::from(later.month()), day: later.day() })
}

} // verus!
