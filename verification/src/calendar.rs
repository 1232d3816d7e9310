//! The proleptic Gregorian calendar as arithmetic on day numbers.
//!
//! A day number counts days from 1970-01-01, which is day 0. Every statement
//! the crate makes about dates and Unix timestamps is phrased over
//! [`CivilDate::day_number`].

use vstd::prelude::*;

verus! {

/// First year the calendar covers.
pub const MIN_YEAR: i32 = -9999;

/// Last year the calendar covers.
pub const MAX_YEAR: i32 = 9999;

/// Day number of January 1st of `MIN_YEAR`.
pub const FIRST_DAY: i64 = -4_371_587;

/// Day number of December 31st of `MAX_YEAR`.
pub const LAST_DAY: i64 = 2_932_896;

/// A calendar date: year, month (1 = January) and day of month.
#[derive(Clone, Copy, Debug, PartialEq, Eq, Structural)]
pub struct CivilDate {
    pub year: i32,
    pub month: u8,
    pub day: u8,
}

/// A year is a leap year when it is divisible by 4, except for century years
/// that are not divisible by 400.
pub open spec fn leap_year(year: int) -> bool {
    year % 4 == 0 && (year % 100 != 0 || year % 400 == 0)
}

/// Number of days of `month` in `year`; months outside 1..=12 count as 31.
pub open spec fn month_length(year: int, month: int) -> int {
    if month == 2 {
        if leap_year(year) { 29 } else { 28 }
    } else if month == 4 || month == 6 || month == 9 || month == 11 {
        30
    } else {
        31
    }
}

/// Number of days of `year`.
pub open spec fn year_length(year: int) -> int {
    if leap_year(year) { 366 } else { 365 }
}

/// Number of leap years among the years 1, 2, .., `year - 1`, continued
/// backwards for `year <= 0`.
pub open spec fn leap_years_before(year: int) -> int {
    (year - 1) / 4 - (year - 1) / 100 + (year - 1) / 400
}

/// Day number of January 1st of `year`.
pub open spec fn days_before_year(year: int) -> int {
    365 * (year - 1970) + leap_years_before(year) - leap_years_before(1970)
}

/// Days of `year` that lie before the first of `month`.
pub open spec fn days_before_month(year: int, month: int) -> int {
    let leap: int = if leap_year(year) { 1 } else { 0 };
    if month <= 1 {
        0
    } else if month == 2 {
        31
    } else if month == 3 {
        59 + leap
    } else if month == 4 {
        90 + leap
    } else if month == 5 {
        120 + leap
    } else if month == 6 {
        151 + leap
    } else if month == 7 {
        181 + leap
    } else if month == 8 {
        212 + leap
    } else if month == 9 {
        243 + leap
    } else if month == 10 {
        273 + leap
    } else if month == 11 {
        304 + leap
    } else {
        334 + leap
    }
}

/// Day of the week of a day number, 1 = Monday .. 7 = Sunday.
pub open spec fn weekday_of_day(day_number: int) -> int {
    (day_number + 3) % 7 + 1
}

impl CivilDate {
    /// The date exists: the year is covered, the month is 1..=12 and the day
    /// lies within the month.
    pub open spec fn valid(self) -> bool {
        &&& MIN_YEAR <= self.year <= MAX_YEAR
        &&& 1 <= self.month <= 12
        &&& 1 <= self.day <= month_length(self.year as int, self.month as int)
    }

    /// Days from 1970-01-01 to this date.
    pub open spec fn day_number(self) -> int {
        days_before_year(self.year as int) + days_before_month(self.year as int, self.month as int)
            + self.day - 1
    }

    /// Calendar order: by year, then month, then day.
    pub open spec fn before(self, other: CivilDate) -> bool {
        self.year < other.year || (self.year == other.year && (self.month < other.month || (
        self.month == other.month && self.day < other.day)))
    }

    /// Whether this date comes strictly before `other` in the calendar.
    pub fn is_before(&self, other: &CivilDate) -> (r: bool)
        ensures
            r == self.before(*other),
    {
        self.year < other.year || (self.year == other.year && (self.month < other.month || (
        self.month == other.month && self.day < other.day)))
    }
}

/// The date that has the given day number.
pub open spec fn date_of_day(day_number: int) -> CivilDate {
    choose|d: CivilDate| d.valid() && d.day_number() == day_number
}

/// Whether `year` is a leap year.
pub fn is_leap_year(year: i32) -> (r: bool)
    ensures
        r == leap_year(year as int),
{
    // Leap years repeat every 400 years, so the test is made on a
    // non-negative year in the same place of that period.
    let shifted: u64 = (year as i64 + 2_147_484_000) as u64;
    shifted % 4 == 0 && (shifted % 100 != 0 || shifted % 400 == 0)
}

/// Number of days in `month` of `year`; 31 for a month outside 1..=12.
pub fn days_in_month(year: i32, month: u8) -> (r: u8)
    ensures
        r == month_length(year as int, month as int),
        28 <= r <= 31,
{
    if month == 2 {
        if is_leap_year(year) { 29 } else { 28 }
    } else if month == 4 || month == 6 || month == 9 || month == 11 {
        30
    } else {
        31
    }
}

/// Counts the leap years before `year`.
fn count_leap_years_before(year: i32) -> (r: i64)
    requires
        MIN_YEAR <= year <= MAX_YEAR,
    ensures
        r == leap_years_before(year as int),
{
    // Leap years repeat every 400 years with 97 of them in each period, so
    // they are counted from 25 periods earlier, where no year is negative.
    let shifted: i64 = year as i64 - 1 + 10_000;
    let fours: i64 = shifted / 4;
    let hundreds: i64 = shifted / 100;
    let four_hundreds: i64 = shifted / 400;
    assert(fours == (year - 1) / 4 + 2_500);
    assert(hundreds == (year - 1) / 100 + 100);
    assert(four_hundreds == (year - 1) / 400 + 25);
    fours - hundreds + four_hundreds - 2_425
}

/// Counts the days of `year` before the first of `month`.
fn count_days_before_month(year: i32, month: u8) -> (r: i64)
    requires
        1 <= month <= 12,
    ensures
        r == days_before_month(year as int, month as int),
{
    let leap: i64 = if is_leap_year(year) {
        1
    } else {
        0
    };
    if month == 1 {
        0
    } else if month == 2 {
        31
    } else if month == 3 {
        59 + leap
    } else if month == 4 {
        90 + leap
    } else if month == 5 {
        120 + leap
    } else if month == 6 {
        151 + leap
    } else if month == 7 {
        181 + leap
    } else if month == 8 {
        212 + leap
    } else if month == 9 {
        243 + leap
    } else if month == 10 {
        273 + leap
    } else if month == 11 {
        304 + leap
    } else {
        334 + leap
    }
}

/// The day number of a valid date, computed.
///
/// The library itself converts through the `time` crate; this function lets
/// the arithmetic that the contracts are stated in be run and compared.
pub fn day_number_of(date: CivilDate) -> (r: i64)
    requires
        date.valid(),
    ensures
        r == date.day_number(),
{
    let before_year = 365 * (date.year as i64 - 1970) + count_leap_years_before(date.year) - 477;
    before_year + count_days_before_month(date.year, date.month) + date.day as i64 - 1
}

/// The weekday of a day number on the calendar, 1 = Monday .. 7 = Sunday.
pub fn weekday_of(day_number: i64) -> (r: u8)
    requires
        FIRST_DAY <= day_number <= LAST_DAY,
    ensures
        r == weekday_of_day(day_number as int),
{
    // 4_371_591 is a multiple of 7 that lifts every day number above zero.
    ((day_number + 3 + 4_371_591) % 7 + 1) as u8
}

/// January 1st of the following year is one year length after January 1st.
pub proof fn lemma_year_step(year: int)
    ensures
        days_before_year(year + 1) == days_before_year(year) + year_length(year),
{
}

/// Later years start on later days.
pub proof fn lemma_years_ordered(a: int, b: int)
    requires
        a <= b,
    ensures
        days_before_year(a) <= days_before_year(b),
{
}

/// Every valid date lies within its own year.
pub proof fn lemma_date_within_year(d: CivilDate)
    requires
        d.valid(),
    ensures
        days_before_year(d.year as int) <= d.day_number() < days_before_year(d.year + 1),
{
    lemma_year_step(d.year as int);
}

/// The day number grows strictly with the calendar order.
pub proof fn lemma_day_number_increases(a: CivilDate, b: CivilDate)
    requires
        a.valid(),
        b.valid(),
        a.before(b),
    ensures
        a.day_number() < b.day_number(),
{
    if a.year < b.year {
        lemma_date_within_year(a);
        lemma_date_within_year(b);
        lemma_years_ordered(a.year + 1, b.year as int);
    }
}

/// Two valid dates with the same day number are the same date.
pub proof fn lemma_day_number_injective(a: CivilDate, b: CivilDate)
    requires
        a.valid(),
        b.valid(),
        a.day_number() == b.day_number(),
    ensures
        a == b,
{
    if a.before(b) {
        lemma_day_number_increases(a, b);
    } else if b.before(a) {
        lemma_day_number_increases(b, a);
    }
}

/// A valid date is the date of its own day number.
pub proof fn lemma_date_of_day_number(d: CivilDate)
    requires
        d.valid(),
    ensures
        date_of_day(d.day_number()) == d,
{
    let c = date_of_day(d.day_number());
    lemma_day_number_injective(c, d);
}

/// The day numbers of valid dates span `FIRST_DAY..=LAST_DAY`.
pub proof fn lemma_day_number_bounds(d: CivilDate)
    requires
        d.valid(),
    ensures
        FIRST_DAY <= d.day_number() <= LAST_DAY,
{
    lemma_date_within_year(d);
    lemma_years_ordered(MIN_YEAR as int, d.year as int);
    lemma_years_ordered(d.year + 1, MAX_YEAR + 1);
}

/// The year that a day number falls in, searched upwards from `from`.
pub proof fn lemma_year_of_day(day_number: int, from: int) -> (year: int)
    requires
        days_before_year(from) <= day_number <= LAST_DAY,
    ensures
        from <= year <= MAX_YEAR,
        days_before_year(year) <= day_number < days_before_year(year + 1),
    decreases day_number - days_before_year(from),
{
    lemma_year_step(from);
    if day_number < days_before_year(from + 1) {
        if from > MAX_YEAR {
            lemma_years_ordered(MAX_YEAR + 1, from);
        }
        from
    } else {
        lemma_year_of_day(day_number, from + 1)
    }
}

/// Every day number on the calendar is the day number of a valid date.
pub proof fn lemma_date_exists(day_number: int) -> (d: CivilDate)
    requires
        FIRST_DAY <= day_number <= LAST_DAY,
    ensures
        d.valid(),
        d.day_number() == day_number,
{
    let year = lemma_year_of_day(day_number, MIN_YEAR as int);
    let ordinal = day_number - days_before_year(year);
    lemma_year_step(year);
    let month: int = if ordinal < days_before_month(year, 2) {
        1
    } else if ordinal < days_before_month(year, 3) {
        2
    } else if ordinal < days_before_month(year, 4) {
        3
    } else if ordinal < days_before_month(year, 5) {
        4
    } else if ordinal < days_before_month(year, 6) {
        5
    } else if ordinal < days_before_month(year, 7) {
        6
    } else if ordinal < days_before_month(year, 8) {
        7
    } else if ordinal < days_before_month(year, 9) {
        8
    } else if ordinal < days_before_month(year, 10) {
        9
    } else if ordinal < days_before_month(year, 11) {
        10
    } else if ordinal < days_before_month(year, 12) {
        11
    } else {
        12
    };
    CivilDate {
        year: year as i32,
        month: month as u8,
        day: (ordinal - days_before_month(year, month) + 1) as u8,
    }
}

/// On the calendar, `date_of_day` is a valid date with the given day number.
pub proof fn lemma_date_of_day(day_number: int)
    requires
        FIRST_DAY <= day_number <= LAST_DAY,
    ensures
        date_of_day(day_number).valid(),
        date_of_day(day_number).day_number() == day_number,
{
    let d = lemma_date_exists(day_number);
}

} // verus!
