//! When the current billing cycle ends.
//!
//! A cycle ends at a local midnight: on a weekday, on a day of the month or
//! on a day of the year. [`calculate_next_reset_timestamp`] gives the first
//! such midnight that lies strictly after a given moment.

use crate::calendar::{
    date_of_day, days_in_month, lemma_date_of_day, lemma_date_of_day_number,
    lemma_day_number_bounds, lemma_day_number_increases, month_length, weekday_of_day, CivilDate,
    FIRST_DAY, LAST_DAY,
};
use crate::clock::{date_plus_days, utc_day_of_timestamp, utc_midnight_timestamp};
use crate::config::{NetworkConfig, TrafficPeriod};
use crate::decimal::{parse_unsigned, parse_unsigned_span};
use crate::text::{chars_of, find_char, first_index_of, spells, spells_word};
use vstd::prelude::*;

verus! {

/// Why no end of cycle could be computed.
#[derive(Clone, Copy, Debug, PartialEq, Eq, Structural)]
pub enum SchedulerError {
    /// The reset day is not written as its period requires.
    InvalidSpec,
    /// The reset day names a date that does not exist, or the moment or the
    /// end of the cycle lies outside the years -9999..=9999.
    InvalidDate,
}

/// A point in time, with the offset of the local clock from UTC.
#[derive(Clone, Copy, Debug, PartialEq, Eq, Structural)]
pub struct Moment {
    /// Seconds since 1970-01-01T00:00:00Z.
    pub unix_seconds: i64,
    /// Seconds that the local clock is ahead of UTC.
    pub offset_seconds: i32,
}

/// The reset day of a configuration, read according to its period.
#[derive(Clone, Copy, Debug, PartialEq, Eq, Structural)]
pub enum ResetRule {
    /// Every week on this weekday, 1 = Monday .. 7 = Sunday.
    Weekday(u8),
    /// Every month on this day, 1..=31, or on the last day of a shorter month.
    DayOfMonth(u8),
    /// Every year on this day of this month, 1..=12.
    DayOfYear { month: u8, day: u8 },
}

impl ResetRule {
    /// The rule is one that [`reset_rule`] can give: a weekday in 1..=7, a
    /// day of the month in 1..=31, or a month in 1..=12.
    pub open spec fn well_formed(self) -> bool {
        match self {
            ResetRule::Weekday(weekday) => 1 <= weekday <= 7,
            ResetRule::DayOfMonth(day) => 1 <= day <= 31,
            ResetRule::DayOfYear { month, day } => 1 <= month <= 12,
        }
    }
}

impl Moment {
    /// What the local clock shows, in seconds since its own 1970-01-01T00:00.
    pub open spec fn local_seconds(self) -> int {
        self.unix_seconds + self.offset_seconds
    }

    /// Day number of the local date.
    pub open spec fn local_day(self) -> int {
        self.local_seconds() / 86_400
    }

    /// The local date lies within the years -9999..=9999.
    pub open spec fn on_calendar(self) -> bool {
        FIRST_DAY <= self.local_day() <= LAST_DAY
    }

    /// Unix timestamp of the local midnight that starts day `day_number`.
    pub open spec fn midnight_of(self, day_number: int) -> int {
        day_number * 86_400 - self.offset_seconds
    }

    /// A moment on a clock that shows UTC.
    pub fn utc(unix_seconds: i64) -> (r: Moment)
        ensures
            r == (Moment { unix_seconds, offset_seconds: 0 }),
    {
        Moment { unix_seconds, offset_seconds: 0 }
    }
}

/// The weekday that `s` names: `mon`..`sun` in any case, or `1`..`7`.
pub open spec fn weekday_of_token(s: Seq<char>) -> Option<u8> {
    if spells(s, "mon"@) || spells(s, "1"@) {
        Some(1u8)
    } else if spells(s, "tue"@) || spells(s, "2"@) {
        Some(2u8)
    } else if spells(s, "wed"@) || spells(s, "3"@) {
        Some(3u8)
    } else if spells(s, "thu"@) || spells(s, "4"@) {
        Some(4u8)
    } else if spells(s, "fri"@) || spells(s, "5"@) {
        Some(5u8)
    } else if spells(s, "sat"@) || spells(s, "6"@) {
        Some(6u8)
    } else if spells(s, "sun"@) || spells(s, "7"@) {
        Some(7u8)
    } else {
        None
    }
}

/// The rule that `text` states for `period`, if it states one.
///
/// A day of the month is a number in 1..=31. A day of the year is a month in
/// 1..=12, a `/`, and a day in 0..=255; whether that day exists is decided
/// when the rule is applied.
pub open spec fn reset_rule(period: TrafficPeriod, text: Seq<char>) -> Option<ResetRule> {
    match period {
        TrafficPeriod::Week => match weekday_of_token(text) {
            Some(weekday) => Some(ResetRule::Weekday(weekday)),
            None => None,
        },
        TrafficPeriod::Month => match parse_unsigned(text, 255) {
            Some(day) => if 1 <= day <= 31 {
                Some(ResetRule::DayOfMonth(day as u8))
            } else {
                None
            },
            None => None,
        },
        TrafficPeriod::Year => {
            let slash = first_index_of(text, '/') as int;
            if slash < text.len() {
                match (parse_unsigned(text.take(slash), 255), parse_unsigned(
                    text.skip(slash + 1),
                    255,
                )) {
                    (Some(month), Some(day)) => if 1 <= month <= 12 {
                        Some(ResetRule::DayOfYear { month: month as u8, day: day as u8 })
                    } else {
                        None
                    },
                    _ => None,
                }
            } else {
                None
            }
        },
    }
}

/// Days from weekday `today` to the next weekday `target`, in 1..=7.
pub open spec fn days_until_weekday(today: int, target: int) -> int {
    if target > today {
        target - today
    } else {
        target - today + 7
    }
}

/// The wanted day of the month, or the last day of a shorter month.
pub open spec fn clamped_day(year: int, month: int, wanted: int) -> int {
    if wanted <= month_length(year, month) {
        wanted
    } else {
        month_length(year, month)
    }
}

/// The next monthly reset after `today`: this month's, if it is still to
/// come, else next month's. After the calendar's last December that is a
/// date of the year after, which is not valid.
pub open spec fn next_monthly_date(today: CivilDate, wanted: int) -> CivilDate {
    if today.day < clamped_day(today.year as int, today.month as int, wanted) {
        CivilDate {
            year: today.year,
            month: today.month,
            day: clamped_day(today.year as int, today.month as int, wanted) as u8,
        }
    } else if today.month == 12 {
        CivilDate {
            year: (today.year + 1) as i32,
            month: 1,
            day: clamped_day(today.year + 1, 1, wanted) as u8,
        }
    } else {
        CivilDate {
            year: today.year,
            month: (today.month + 1) as u8,
            day: clamped_day(today.year as int, today.month + 1, wanted) as u8,
        }
    }
}

/// Day number of the first reset day after `today`, for a day on the
/// calendar.
///
/// - Weekly: the next day that falls on the weekday, at most a week ahead.
/// - Monthly: see [`next_monthly_date`].
/// - Yearly: the day of this year if `today` is before it, else the day of
///   next year. The day is not clamped: a day that the month lacks, in the
///   year asked, is `InvalidDate`.
///
/// A reset day past the end of the calendar is `InvalidDate`, and so is a
/// monthly reset on day 0.
pub open spec fn next_reset_day(rule: ResetRule, today: int) -> Result<int, SchedulerError> {
    match rule {
        ResetRule::Weekday(target) => {
            let day = today + days_until_weekday(weekday_of_day(today), target as int);
            if day <= LAST_DAY {
                Ok(day)
            } else {
                Err(SchedulerError::InvalidDate)
            }
        },
        ResetRule::DayOfMonth(wanted) => {
            let date = next_monthly_date(date_of_day(today), wanted as int);
            if date.valid() {
                Ok(date.day_number())
            } else {
                Err(SchedulerError::InvalidDate)
            }
        },
        ResetRule::DayOfYear { month, day } => {
            let this_year = CivilDate { year: date_of_day(today).year, month, day };
            let next_year = CivilDate { year: (this_year.year + 1) as i32, month, day };
            if !this_year.valid() {
                Err(SchedulerError::InvalidDate)
            } else if date_of_day(today).before(this_year) {
                Ok(this_year.day_number())
            } else if next_year.valid() {
                Ok(next_year.day_number())
            } else {
                Err(SchedulerError::InvalidDate)
            }
        },
    }
}

/// Unix timestamp of the first reset after `now` under `rule`: the local
/// midnight that starts the first reset day after the local date of `now`.
pub open spec fn next_reset_for(rule: ResetRule, now: Moment) -> Result<int, SchedulerError> {
    if !now.on_calendar() {
        Err(SchedulerError::InvalidDate)
    } else {
        match next_reset_day(rule, now.local_day()) {
            Ok(day) => Ok(now.midnight_of(day)),
            Err(e) => Err(e),
        }
    }
}

/// Unix timestamp of the end of the cycle that `now` lies in, for a reset
/// day written as text.
pub open spec fn next_reset(period: TrafficPeriod, reset_day: Seq<char>, now: Moment) -> Result<
    int,
    SchedulerError,
> {
    match reset_rule(period, reset_day) {
        None => Err(SchedulerError::InvalidSpec),
        Some(rule) => next_reset_for(rule, now),
    }
}

/// An executable result says the same as a specified one.
pub open spec fn same_outcome(
    r: Result<i64, SchedulerError>,
    s: Result<int, SchedulerError>,
) -> bool {
    match r {
        Ok(t) => s == Ok::<int, SchedulerError>(t as int),
        Err(e) => s == Err::<int, SchedulerError>(e),
    }
}

/// Reads a weekday: `mon`..`sun` in any case, or `1`..`7`.
pub fn parse_weekday(chars: &Vec<char>) -> (r: Option<u8>)
    ensures
        r == weekday_of_token(chars@),
{
    if spells_word(chars, "mon") || spells_word(chars, "1") {
        Some(1)
    } else if spells_word(chars, "tue") || spells_word(chars, "2") {
        Some(2)
    } else if spells_word(chars, "wed") || spells_word(chars, "3") {
        Some(3)
    } else if spells_word(chars, "thu") || spells_word(chars, "4") {
        Some(4)
    } else if spells_word(chars, "fri") || spells_word(chars, "5") {
        Some(5)
    } else if spells_word(chars, "sat") || spells_word(chars, "6") {
        Some(6)
    } else if spells_word(chars, "sun") || spells_word(chars, "7") {
        Some(7)
    } else {
        None
    }
}

/// Reads the reset day of a configuration according to its period.
pub fn parse_reset_rule(period: TrafficPeriod, text: &str) -> (r: Option<ResetRule>)
    ensures
        r == reset_rule(period, text@),
{
    let chars = chars_of(text);
    let end = chars.len();
    assert(chars@.subrange(0, end as int) == chars@);
    match period {
        TrafficPeriod::Week => match parse_weekday(&chars) {
            Some(weekday) => Some(ResetRule::Weekday(weekday)),
            None => None,
        },
        TrafficPeriod::Month => match parse_unsigned_span(&chars, 0, end, 255) {
            Some(day) => if 1 <= day && day <= 31 {
                Some(ResetRule::DayOfMonth(day as u8))
            } else {
                None
            },
            None => None,
        },
        TrafficPeriod::Year => {
            let slash = find_char(&chars, 0, end, '/');
            if slash == end {
                return None;
            }
            assert(chars@.subrange(0, slash as int) == chars@.take(slash as int));
            assert(chars@.subrange(slash + 1, end as int) == chars@.skip(slash + 1));
            let month = parse_unsigned_span(&chars, 0, slash, 255);
            let day = parse_unsigned_span(&chars, slash + 1, end, 255);
            match (month, day) {
                (Some(month), Some(day)) => if 1 <= month && month <= 12 {
                    Some(ResetRule::DayOfYear { month: month as u8, day: day as u8 })
                } else {
                    None
                },
                _ => None,
            }
        },
    }
}

/// The next monthly reset after `today`, for a wanted day of 1..=31.
pub fn next_monthly(today: CivilDate, wanted: u8) -> (r: CivilDate)
    requires
        today.valid(),
    ensures
        r == next_monthly_date(today, wanted as int),
{
    let length = days_in_month(today.year, today.month);
    let target = if wanted <= length {
        wanted
    } else {
        length
    };
    if today.day < target {
        CivilDate { year: today.year, month: today.month, day: target }
    } else if today.month == 12 {
        let length = days_in_month(today.year + 1, 1);
        CivilDate {
            year: today.year + 1,
            month: 1,
            day: if wanted <= length {
                wanted
            } else {
                length
            },
        }
    } else {
        let length = days_in_month(today.year, today.month + 1);
        CivilDate {
            year: today.year,
            month: today.month + 1,
            day: if wanted <= length {
                wanted
            } else {
                length
            },
        }
    }
}

/// Local midnight at the start of `date`, as a Unix timestamp, or
/// `InvalidDate` where the date does not exist.
fn local_midnight(date: CivilDate, now: Moment) -> (r: Result<i64, SchedulerError>)
    ensures
        date.valid() ==> r == Ok::<i64, SchedulerError>(now.midnight_of(date.day_number()) as i64),
        date.valid() ==> i64::MIN <= now.midnight_of(date.day_number()) <= i64::MAX,
        !date.valid() ==> r == Err::<i64, SchedulerError>(SchedulerError::InvalidDate),
{
    match utc_midnight_timestamp(date) {
        Ok(timestamp) => {
            proof {
                lemma_day_number_bounds(date);
            }
            Ok(timestamp - now.offset_seconds as i64)
        },
        Err(_) => Err(SchedulerError::InvalidDate),
    }
}

/// The first reset after `now` under `rule`, as a Unix timestamp.
///
/// Fails with `InvalidDate` where `now` or the reset lies outside the years
/// -9999..=9999, or where a yearly rule names a day that its month lacks.
pub fn next_reset_after(rule: ResetRule, now: Moment) -> (r: Result<i64, SchedulerError>)
    ensures
        same_outcome(r, next_reset_for(rule, now)),
        rule.well_formed() ==> (r matches Ok(reset) ==> now.unix_seconds < reset),
{
    proof {
        if rule.well_formed() {
            lemma_reset_after_is_later(rule, now);
        }
    }
    let local: i128 = now.unix_seconds as i128 + now.offset_seconds as i128;
    if local < FIRST_DAY as i128 * 86_400 || local >= (LAST_DAY as i128 + 1) * 86_400 {
        return Err(SchedulerError::InvalidDate);
    }
    let today = match utc_day_of_timestamp(local as i64) {
        Ok(today) => today,
        Err(_) => {
            return Err(SchedulerError::InvalidDate);
        },
    };
    proof {
        lemma_date_of_day_number(today.date);
    }
    match rule {
        ResetRule::Weekday(target) => {
            let ahead: i32 = if target > today.weekday {
                (target - today.weekday) as i32
            } else {
                target as i32 + 7 - today.weekday as i32
            };
            match date_plus_days(today.date, ahead) {
                Some(date) => local_midnight(date, now),
                None => Err(SchedulerError::InvalidDate),
            }
        },
        ResetRule::DayOfMonth(wanted) => {
            let date = next_monthly(today.date, wanted);
            local_midnight(date, now)
        },
        ResetRule::DayOfYear { month, day } => {
            let this_year = CivilDate { year: today.date.year, month, day };
            let timestamp = local_midnight(this_year, now)?;
            if today.date.is_before(&this_year) {
                Ok(timestamp)
            } else {
                local_midnight(CivilDate { year: today.date.year + 1, month, day }, now)
            }
        },
    }
}

/// The end of the cycle that `now` lies in, as a Unix timestamp.
///
/// Fails with `InvalidSpec` where the reset day of `config` is not written
/// as its period requires, else as [`next_reset_after`] does.
pub fn calculate_next_reset_timestamp(config: &NetworkConfig, now: Moment) -> (r: Result<
    i64,
    SchedulerError,
>)
    ensures
        same_outcome(r, next_reset(config.traffic_period, config.traffic_reset_day@, now)),
        r matches Ok(reset) ==> now.unix_seconds < reset,
{
    proof {
        lemma_next_reset_is_later(config.traffic_period, config.traffic_reset_day@, now);
    }
    match parse_reset_rule(config.traffic_period, config.traffic_reset_day.as_str()) {
        Some(rule) => next_reset_after(rule, now),
        None => Err(SchedulerError::InvalidSpec),
    }
}

/// What [`reset_rule`] reads is well formed.
pub proof fn lemma_reset_rule_well_formed(period: TrafficPeriod, text: Seq<char>)
    ensures
        reset_rule(period, text) matches Some(rule) ==> rule.well_formed(),
{
}

/// The reset day of a well-formed rule lies after today, on the calendar.
pub proof fn lemma_reset_day_is_later(rule: ResetRule, today: int)
    requires
        rule.well_formed(),
        FIRST_DAY <= today <= LAST_DAY,
    ensures
        next_reset_day(rule, today) matches Ok(day) ==> today < day <= LAST_DAY,
{
    lemma_date_of_day(today);
    let date = date_of_day(today);
    match rule {
        ResetRule::Weekday(target) => {},
        ResetRule::DayOfMonth(wanted) => {
            let next = next_monthly_date(date, wanted as int);
            if next.valid() {
                lemma_day_number_increases(date, next);
                lemma_day_number_bounds(next);
            }
        },
        ResetRule::DayOfYear { month, day } => {
            let this_year = CivilDate { year: date.year, month, day };
            let next_year = CivilDate { year: (date.year + 1) as i32, month, day };
            if this_year.valid() {
                if date.before(this_year) {
                    lemma_day_number_increases(date, this_year);
                    lemma_day_number_bounds(this_year);
                } else if next_year.valid() {
                    lemma_day_number_increases(date, next_year);
                    lemma_day_number_bounds(next_year);
                }
            }
        },
    }
}

/// A weekly reset falls on its weekday, and is the first day after today
/// that does: it is at most a week ahead.
pub proof fn lemma_weekly_reset_day(target: u8, today: int)
    requires
        1 <= target <= 7,
    ensures
        next_reset_day(ResetRule::Weekday(target), today) matches Ok(day) ==> {
            &&& today < day <= today + 7
            &&& weekday_of_day(day) == target
        },
{
}

/// A monthly reset falls on the wanted day of its month, or on the last day
/// of a month that is shorter; a yearly reset falls on its month and day.
pub proof fn lemma_reset_day_is_as_asked(rule: ResetRule, today: int)
    requires
        rule.well_formed(),
        FIRST_DAY <= today <= LAST_DAY,
    ensures
        next_reset_day(rule, today) matches Ok(day) ==> match rule {
            ResetRule::Weekday(target) => weekday_of_day(day) == target,
            ResetRule::DayOfMonth(wanted) => date_of_day(day).day == clamped_day(
                date_of_day(day).year as int,
                date_of_day(day).month as int,
                wanted as int,
            ),
            ResetRule::DayOfYear { month, day: wanted } => date_of_day(day).month == month
                && date_of_day(day).day == wanted,
        },
{
    lemma_date_of_day(today);
    match rule {
        ResetRule::Weekday(target) => {
            lemma_weekly_reset_day(target, today);
        },
        ResetRule::DayOfMonth(wanted) => {
            let next = next_monthly_date(date_of_day(today), wanted as int);
            if next.valid() {
                lemma_date_of_day_number(next);
            }
        },
        ResetRule::DayOfYear { month, day } => {
            let this_year = CivilDate { year: date_of_day(today).year, month, day };
            let next_year = CivilDate { year: (this_year.year + 1) as i32, month, day };
            if this_year.valid() {
                lemma_date_of_day_number(this_year);
            }
            if next_year.valid() {
                lemma_date_of_day_number(next_year);
            }
        },
    }
}

/// A reset under a well-formed rule lies strictly after the moment it was
/// computed for.
pub proof fn lemma_reset_after_is_later(rule: ResetRule, now: Moment)
    requires
        rule.well_formed(),
    ensures
        next_reset_for(rule, now) matches Ok(reset) ==> now.unix_seconds < reset <= i64::MAX,
{
    if now.on_calendar() {
        lemma_reset_day_is_later(rule, now.local_day());
    }
}

/// The end of a cycle lies strictly after every moment of the cycle: a
/// moment that is itself a reset has the next reset as its end, not itself.
pub proof fn lemma_next_reset_is_later(period: TrafficPeriod, reset_day: Seq<char>, now: Moment)
    ensures
        next_reset(period, reset_day, now) matches Ok(reset) ==> now.unix_seconds < reset
            <= i64::MAX,
{
    lemma_reset_rule_well_formed(period, reset_day);
    match reset_rule(period, reset_day) {
        Some(rule) => lemma_reset_after_is_later(rule, now),
        None => {},
    }
}

/// No two cycles end at the same instant: the reset computed at a reset lies
/// strictly after it, wherever both can be computed.
pub proof fn lemma_next_reset_never_repeats(
    period: TrafficPeriod,
    reset_day: Seq<char>,
    now: Moment,
)
    requires
        next_reset(period, reset_day, now) is Ok,
    ensures
        ({
            let first = next_reset(period, reset_day, now)->Ok_0;
            let at_first = Moment {
                unix_seconds: first as i64,
                offset_seconds: now.offset_seconds,
            };
            next_reset(period, reset_day, at_first) matches Ok(second) ==> first < second
        }),
{
    lemma_next_reset_is_later(period, reset_day, now);
    let first = next_reset(period, reset_day, now)->Ok_0;
    let at_first = Moment { unix_seconds: first as i64, offset_seconds: now.offset_seconds };
    lemma_next_reset_is_later(period, reset_day, at_first);
}

} // verus!
