//! The proleptic Gregorian calendar: days as numbers, and the [`Date`] type
//! that every window, key and range of the warehouse is made of.
//!
//! A day is modelled by its number, with January 1 of the year 1 as day 1.

use chrono::Datelike;
use vstd::prelude::*;
use crate::number::padded;

verus! {

// ---------------------------------------------------------------- the model

/// The first year of the calendar.
pub const MIN_YEAR: i32 = -262143;

/// The last year of the calendar.
pub const MAX_YEAR: i32 = 262142;

/// The number of January 1 of the first year.
pub const MIN_DAY: i32 = -95746129;

/// The number of December 31 of the last year.
pub const MAX_DAY: i32 = 95745399;

/// Is `year` a leap year?
pub open spec fn is_leap(year: int) -> bool {
    year % 4 == 0 && (year % 100 != 0 || year % 400 == 0)
}

/// One in a leap year, else zero.
pub open spec fn leap_day(year: int) -> int {
    if is_leap(year) {
        1
    } else {
        0
    }
}

/// The number of days in a month.
pub open spec fn days_in_month(year: int, month: int) -> int {
    if month == 2 {
        28 + leap_day(year)
    } else if month == 4 || month == 6 || month == 9 || month == 11 {
        30
    } else {
        31
    }
}

/// The number of days of the year that lie before a month. Month 13 stands for
/// the end of the year.
pub open spec fn days_before_month(year: int, month: int) -> int {
    let leap = leap_day(year);
    if month <= 1 {
        0
    } else if month == 2 {
        31
    } else if month == 3 {
        59 + leap
    } else if month == 4 {
        90 + leap
    } else if month == 5 {
        120 + leap
    } else if month == 6 {
        151 + leap
    } else if month == 7 {
        181 + leap
    } else if month == 8 {
        212 + leap
    } else if month == 9 {
        243 + leap
    } else if month == 10 {
        273 + leap
    } else if month == 11 {
        304 + leap
    } else if month == 12 {
        334 + leap
    } else {
        365 + leap
    }
}

/// The number of the last day before a year.
#[verifier::opaque]
pub open spec fn days_before_year(year: int) -> int {
    365 * (year - 1) + (year - 1) / 4 - (year - 1) / 100 + (year - 1) / 400
}

/// The number of a calendar day.
pub open spec fn day_number(year: int, month: int, day: int) -> int {
    days_before_year(year) + days_before_month(year, month) + day
}

/// The three numbers name a day of some year.
pub open spec fn is_month_day(year: int, month: int, day: int) -> bool {
    1 <= month <= 12 && 1 <= day <= days_in_month(year, month)
}

/// The three numbers name a day of this calendar.
pub open spec fn is_ymd(year: int, month: int, day: int) -> bool {
    MIN_YEAR <= year <= MAX_YEAR && is_month_day(year, month, day)
}

/// The day with number `n` is `day` of `month` of `year`.
pub open spec fn is_civil(n: int, year: int, month: int, day: int) -> bool {
    is_ymd(year, month, day) && day_number(year, month, day) == n
}

/// The year, month and day of the day with number `n`.
pub open spec fn civil_of(n: int) -> (int, int, int) {
    choose|c: (int, int, int)| #[trigger] is_civil(n, c.0, c.1, c.2)
}

/// The year of a day.
pub open spec fn year_of(n: int) -> int {
    civil_of(n).0
}

/// The month of a day.
pub open spec fn month_of(n: int) -> int {
    civil_of(n).1
}

/// The day of the month of a day.
pub open spec fn day_of(n: int) -> int {
    civil_of(n).2
}

/// The number is that of a day of this calendar.
pub open spec fn in_calendar(n: int) -> bool {
    MIN_DAY <= n <= MAX_DAY
}

/// The day of the week, Monday being 1 and Sunday 7.
pub open spec fn weekday_of(n: int) -> int {
    (n - 1) % 7 + 1
}

/// The Monday that begins ISO week 1 of a year: the Monday of the week that
/// holds January 4.
pub open spec fn first_monday(year: int) -> int {
    let january4 = days_before_year(year) + 4;
    january4 - (weekday_of(january4) - 1)
}

/// The number of ISO weeks in a year.
pub open spec fn weeks_in_year(year: int) -> int {
    (first_monday(year + 1) - first_monday(year)) / 7
}

/// The Monday of an ISO week.
pub open spec fn week_monday(year: int, week: int) -> int {
    first_monday(year) + 7 * (week - 1)
}

/// The day with number `n` lies in ISO week `week` of `year`.
pub open spec fn is_iso_week(n: int, year: int, week: int) -> bool {
    &&& first_monday(year) <= n < first_monday(year + 1)
    &&& week_monday(year, week) <= n < week_monday(year, week) + 7
}

/// The ISO year and week of a day.
pub open spec fn iso_week_of(n: int) -> (int, int) {
    choose|c: (int, int)| #[trigger] is_iso_week(n, c.0, c.1)
}

/// A year as `%Y` writes it: four digits, with a sign outside 0 to 9999.
pub open spec fn year_text(year: int) -> Seq<char> {
    if 0 <= year <= 9999 {
        padded(year as nat, 4)
    } else if year < 0 {
        seq!['-'] + padded((-year) as nat, 4)
    } else {
        seq!['+'] + padded(year as nat, 4)
    }
}

/// The `YYYY-MM-DD` key of a day.
pub open spec fn date_key(n: int) -> Seq<char> {
    year_text(year_of(n)) + seq!['-'] + padded(month_of(n) as nat, 2) + seq!['-'] + padded(
        day_of(n) as nat,
        2,
    )
}

// ---------------------------------------------------------------- lemmas

/// The bounds of the calendar are the ends of its first and last year.
pub proof fn lemma_calendar_bounds()
    ensures
        MIN_DAY == day_number(MIN_YEAR as int, 1, 1),
        MAX_DAY == day_number(MAX_YEAR as int, 12, 31),
{
    reveal(days_before_year);
}

/// One where `n` is a multiple of `divisor`, else zero.
spec fn multiple(n: int, divisor: int) -> int {
    if n % divisor == 0 {
        1
    } else {
        0
    }
}

proof fn lemma_fourths(n: int)
    ensures
        n / 4 == (n - 1) / 4 + multiple(n, 4),
{
}

proof fn lemma_hundredths(n: int)
    ensures
        n / 100 == (n - 1) / 100 + multiple(n, 100),
        n % 100 == 0 ==> n % 4 == 0,
{
}

proof fn lemma_four_hundredths(n: int)
    ensures
        n / 400 == (n - 1) / 400 + multiple(n, 400),
        n % 400 == 0 ==> n % 100 == 0,
{
}

/// A year is 365 days long, and a leap year one day longer.
pub proof fn lemma_year_length(year: int)
    ensures
        days_before_year(year + 1) == days_before_year(year) + 365 + leap_day(year),
        days_before_year(year + 1) == days_before_year(year) + days_before_month(year, 13),
{
    let steps = multiple(year, 4) - multiple(year, 100) + multiple(year, 400);
    assert(steps == leap_day(year)) by {
        lemma_hundredths(year);
        lemma_four_hundredths(year);
    }
    assert(days_before_year(year + 1) == days_before_year(year) + 365 + steps) by {
        reveal(days_before_year);
        lemma_fourths(year);
        lemma_hundredths(year);
        lemma_four_hundredths(year);
    }
}

/// A month begins where the month before it ends.
pub proof fn lemma_month_length(year: int, month: int)
    requires
        1 <= month <= 12,
    ensures
        days_before_month(year, month + 1) == days_before_month(year, month) + days_in_month(
            year,
            month,
        ),
{
}

/// Months follow each other within a year.
pub proof fn lemma_months_follow(year: int, earlier: int, later: int)
    requires
        1 <= earlier <= later <= 13,
    ensures
        days_before_month(year, earlier) <= days_before_month(year, later),
        earlier < later ==> days_before_month(year, earlier) + days_in_month(year, earlier)
            <= days_before_month(year, later),
{
}

/// Years follow each other.
pub proof fn lemma_years_follow(earlier: int, later: int)
    requires
        earlier <= later,
    ensures
        days_before_year(earlier) + 365 * (later - earlier) <= days_before_year(later),
    decreases later - earlier,
{
    if earlier < later {
        lemma_years_follow(earlier, later - 1);
        lemma_year_length(later - 1);
    }
}

/// Every day of a year lies between the ends of the year.
pub proof fn lemma_day_in_year(year: int, month: int, day: int)
    requires
        is_month_day(year, month, day),
    ensures
        days_before_year(year) < day_number(year, month, day) <= days_before_year(year + 1),
{
    lemma_months_follow(year, month, 13);
    lemma_year_length(year);
    if month < 13 {
        lemma_month_length(year, month);
    }
}

/// A day of a year of this calendar is a day of this calendar.
pub proof fn lemma_ymd_in_calendar(year: int, month: int, day: int)
    requires
        is_ymd(year, month, day),
    ensures
        in_calendar(day_number(year, month, day)),
{
    lemma_day_in_year(year, month, day);
    lemma_calendar_bounds();
    lemma_years_follow(MIN_YEAR as int, year);
    lemma_years_follow(year, MAX_YEAR as int);
    lemma_year_length(MAX_YEAR as int);
    lemma_years_follow(year + 1, MAX_YEAR + 1);
}

/// A day has one year, one month and one day of the month.
pub proof fn lemma_civil_unique(n: int, year: int, month: int, day: int)
    requires
        is_civil(n, year, month, day),
    ensures
        civil_of(n) == (year, month, day),
{
    let c = (year, month, day);
    assert(is_civil(n, c.0, c.1, c.2));
    let other = civil_of(n);
    assert(is_civil(n, other.0, other.1, other.2));
    lemma_day_in_year(year, month, day);
    lemma_day_in_year(other.0, other.1, other.2);
    if other.0 < year {
        lemma_years_follow(other.0 + 1, year);
    }
    if year < other.0 {
        lemma_years_follow(year + 1, other.0);
    }
    if other.1 < month {
        lemma_months_follow(year, other.1, month);
    }
    if month < other.1 {
        lemma_months_follow(year, month, other.1);
    }
}

/// The Mondays on or before two days that lie a year apart are 52 or 53 weeks
/// apart.
proof fn lemma_mondays(a: int, b: int)
    requires
        b == a + 365 || b == a + 366,
    ensures
        (a - (a - 1) % 7) % 7 == 1,
        (b - (b - 1) % 7) - (a - (a - 1) % 7) == 364 || (b - (b - 1) % 7) - (a - (a - 1) % 7)
            == 371,
{
}

/// Every ISO week begins on a Monday, and a year has 52 or 53 of them.
pub proof fn lemma_iso_year(year: int)
    ensures
        first_monday(year) % 7 == 1,
        weekday_of(first_monday(year)) == 1,
        first_monday(year + 1) - first_monday(year) == 7 * weeks_in_year(year),
        weeks_in_year(year) == 52 || weeks_in_year(year) == 53,
{
    let a = days_before_year(year) + 4;
    let b = days_before_year(year + 1) + 4;
    assert(b == a + 365 || b == a + 366) by {
        lemma_year_length(year);
    }
    lemma_mondays(a, b);
    assert(first_monday(year) == a - (a - 1) % 7);
    assert(first_monday(year + 1) == b - (b - 1) % 7);
}

/// December 28 always lies in the last ISO week of its year.
pub proof fn lemma_december_28(year: int, iso_year: int, week: int)
    requires
        is_iso_week(day_number(year, 12, 28), iso_year, week),
    ensures
        iso_year == year,
        week == weeks_in_year(year),
{
    let n = day_number(year, 12, 28);
    lemma_year_length(year);
    lemma_iso_year(year);
    assert(first_monday(year) <= n < first_monday(year + 1));
    assert(n >= first_monday(year + 1) - 7);
    lemma_iso_years_follow(year, iso_year);
    lemma_iso_years_follow(iso_year, year);
}

/// ISO years follow each other.
pub proof fn lemma_iso_years_follow(earlier: int, later: int)
    ensures
        earlier <= later ==> first_monday(earlier) <= first_monday(later),
        earlier < later ==> first_monday(earlier + 1) <= first_monday(later),
    decreases later - earlier,
{
    if earlier < later {
        lemma_iso_years_follow(earlier, later - 1);
        lemma_iso_year(later - 1);
    }
}

/// A day lies in one ISO week.
pub proof fn lemma_iso_week_unique(n: int, year: int, week: int)
    requires
        is_iso_week(n, year, week),
    ensures
        iso_week_of(n) == (year, week),
{
    let c = (year, week);
    assert(is_iso_week(n, c.0, c.1));
    let other = iso_week_of(n);
    assert(is_iso_week(n, other.0, other.1));
    lemma_iso_years_follow(year, other.0);
    lemma_iso_years_follow(other.0, year);
}

/// The ISO year of a day of the calendar is a year of the calendar or its
/// neighbour.
pub proof fn lemma_iso_year_bounds(n: int, year: int, week: int)
    requires
        in_calendar(n),
        is_iso_week(n, year, week),
    ensures
        MIN_YEAR - 1 <= year <= MAX_YEAR + 1,
{
    lemma_calendar_bounds();
    lemma_year_length(MAX_YEAR as int);
    lemma_year_length(MIN_YEAR - 1);
    lemma_year_length(MAX_YEAR + 1);
    if year > MAX_YEAR + 1 {
        lemma_iso_years_follow(MAX_YEAR + 2, year);
    }
    if year < MIN_YEAR - 1 {
        lemma_iso_years_follow(year + 1, MIN_YEAR - 1);
    }
}

// ---------------------------------------------------------------- chrono

/// Calls `NaiveDate::from_ymd_opt`, which yields a date exactly when the three
/// numbers name a day of the calendar; the result is the day's number as
/// `Datelike::num_days_from_ce` counts it.
#[verifier::external_body]
fn chrono_from_ymd(year: i32, month: u32, day: u32) -> (n: Option<i32>)
    ensures
        match n {
            Some(n) => is_civil(n as int, year as int, month as int, day as int),
            None => !is_ymd(year as int, month as int, day as int),
        },
{
    chrono::NaiveDate::from_ymd_opt(year, month, day).map(|date| date.num_days_from_ce())
}

/// Calls `NaiveDate::from_num_days_from_ce_opt` and reads the date back through
/// `Datelike::year`, `Datelike::month` and `Datelike::day`.
#[verifier::external_body]
fn chrono_civil(n: i32) -> (civil: (i32, u32, u32))
    requires
        in_calendar(n as int),
    ensures
        is_civil(n as int, civil.0 as int, civil.1 as int, civil.2 as int),
{
    let date = chrono::NaiveDate::from_num_days_from_ce_opt(n).unwrap();
    (date.year(), date.month(), date.day())
}

/// Calls `NaiveDate::from_isoywd_opt` for the Monday of an ISO week. It yields
/// a date exactly when the year has that week and the Monday is a day of the
/// calendar.
#[verifier::external_body]
fn chrono_week_monday(year: i32, week: u32) -> (n: Option<i32>)
    requires
        MIN_YEAR <= year <= MAX_YEAR,
    ensures
        match n {
            Some(n) => {
                &&& 1 <= week <= weeks_in_year(year as int)
                &&& n == week_monday(year as int, week as int)
                &&& in_calendar(n as int)
            },
            None => !(1 <= week <= weeks_in_year(year as int) && in_calendar(
                week_monday(year as int, week as int),
            )),
        },
{
    chrono::NaiveDate::from_isoywd_opt(year, week, chrono::Weekday::Mon)
        .map(|date| date.num_days_from_ce())
}

/// Calls `Datelike::iso_week` and reads the year and the number of the week.
#[verifier::external_body]
fn chrono_iso_week(n: i32) -> (week: (i32, u32))
    requires
        in_calendar(n as int),
    ensures
        is_iso_week(n as int, week.0 as int, week.1 as int),
{
    let week = chrono::NaiveDate::from_num_days_from_ce_opt(n).unwrap().iso_week();
    (week.year(), week.week())
}

/// Calls `Weekday::number_from_monday` on the day's `Datelike::weekday`.
#[verifier::external_body]
fn chrono_weekday(n: i32) -> (weekday: u32)
    requires
        in_calendar(n as int),
    ensures
        weekday == weekday_of(n as int),
{
    chrono::NaiveDate::from_num_days_from_ce_opt(n).unwrap().weekday().number_from_monday()
}

/// Calls `Datelike::ordinal`: the day of the year, starting from 1.
#[verifier::external_body]
fn chrono_ordinal(n: i32) -> (ordinal: u32)
    requires
        in_calendar(n as int),
    ensures
        ordinal == n - days_before_year(year_of(n as int)),
{
    chrono::NaiveDate::from_num_days_from_ce_opt(n).unwrap().ordinal()
}

/// Calls `NaiveDate::format` with `%Y-%m-%d`: the year in four digits, or with
/// its sign outside 0 to 9999, then the month and the day in two digits each.
#[verifier::external_body]
fn chrono_format(n: i32) -> (key: String)
    requires
        in_calendar(n as int),
    ensures
        key@ == date_key(n as int),
{
    chrono::NaiveDate::from_num_days_from_ce_opt(n).unwrap().format("%Y-%m-%d").to_string()
}

/// What `NaiveDate::parse_from_str` reads with the format `%Y-%m-%d`: the
/// number of the day, or the text of the parse error.
pub uninterp spec fn parsed_date(text: Seq<char>) -> Result<int, Seq<char>>;

/// Calls `NaiveDate::parse_from_str` with `%Y-%m-%d`. The outcome depends on
/// the text alone, and a day's own key reads back as that day.
#[verifier::external_body]
fn chrono_parse(text: &str) -> (outcome: Result<i32, String>)
    ensures
        match outcome {
            Ok(n) => parsed_date(text@) == Ok::<int, Seq<char>>(n as int) && in_calendar(n as int),
            Err(message) => parsed_date(text@) == Err::<int, Seq<char>>(message@),
        },
        forall|n: int|
            in_calendar(n) && text@ == #[trigger] date_key(n) ==> outcome is Ok && outcome->Ok_0 == n,
{
    match chrono::NaiveDate::parse_from_str(text, "%Y-%m-%d") {
        Ok(date) => Ok(date.num_days_from_ce()),
        Err(error) => Err(error.to_string()),
    }
}

// ---------------------------------------------------------------- Date

/// A calendar day. Its view is the day's number.
#[derive(Clone, Copy, PartialEq, Eq, Structural, Debug)]
pub struct Date {
    days: i32,
}

impl View for Date {
    type V = int;

    closed spec fn view(&self) -> int {
        self.days as int
    }
}

impl Date {
    /// Every date is a day of the calendar.
    #[verifier::type_invariant]
    pub open spec fn wf(self) -> bool {
        in_calendar(self@)
    }

    /// The date with a day number.
    pub fn from_days(days: i32) -> (date: Option<Date>)
        ensures
            match date {
                Some(date) => date@ == days && in_calendar(days as int),
                None => !in_calendar(days as int),
            },
    {
        if MIN_DAY <= days && days <= MAX_DAY {
            Some(Date { days })
        } else {
            None
        }
    }

    /// The date of a year, month and day, if there is such a day.
    pub fn from_ymd_opt(year: i32, month: u32, day: u32) -> (date: Option<Date>)
        ensures
            match date {
                Some(date) => is_civil(date@, year as int, month as int, day as int),
                None => !is_ymd(year as int, month as int, day as int),
            },
    {
        match chrono_from_ymd(year, month, day) {
            Some(days) => {
                proof {
                    lemma_ymd_in_calendar(year as int, month as int, day as int);
                }
                Some(Date { days })
            },
            None => None,
        }
    }

    /// The first day of a month.
    pub fn first_of(year: i32, month: u32) -> (date: Date)
        requires
            MIN_YEAR <= year <= MAX_YEAR,
            1 <= month <= 12,
        ensures
            is_civil(date@, year as int, month as int, 1),
    {
        match Date::from_ymd_opt(year, month, 1) {
            Some(date) => date,
            None => Date { days: 1 },
        }
    }

    /// The Monday of an ISO week, if the year has that week.
    pub fn from_isoywd_opt(year: i32, week: u32) -> (date: Option<Date>)
        requires
            MIN_YEAR <= year <= MAX_YEAR,
        ensures
            match date {
                Some(date) => {
                    &&& 1 <= week <= weeks_in_year(year as int)
                    &&& date@ == week_monday(year as int, week as int)
                },
                None => !(1 <= week <= weeks_in_year(year as int) && in_calendar(
                    week_monday(year as int, week as int),
                )),
            },
    {
        match chrono_week_monday(year, week) {
            Some(days) => Some(Date { days }),
            None => None,
        }
    }

    /// The number of the day.
    pub fn day_number(&self) -> (n: i32)
        ensures
            n == self@,
            in_calendar(n as int),
    {
        proof {
            use_type_invariant(self);
        }
        self.days
    }

    /// The year, month and day of the month.
    pub fn civil(&self) -> (civil: (i32, u32, u32))
        ensures
            is_civil(self@, civil.0 as int, civil.1 as int, civil.2 as int),
            civil_of(self@) == (civil.0 as int, civil.1 as int, civil.2 as int),
    {
        proof {
            use_type_invariant(self);
        }
        let civil = chrono_civil(self.days);
        proof {
            lemma_civil_unique(self@, civil.0 as int, civil.1 as int, civil.2 as int);
        }
        civil
    }

    /// The ISO year and week.
    pub fn iso_week(&self) -> (week: (i32, u32))
        ensures
            is_iso_week(self@, week.0 as int, week.1 as int),
            iso_week_of(self@) == (week.0 as int, week.1 as int),
            1 <= week.1 <= 53,
            MIN_YEAR - 1 <= week.0 <= MAX_YEAR + 1,
    {
        proof {
            use_type_invariant(self);
        }
        let week = chrono_iso_week(self.days);
        proof {
            lemma_iso_year(week.0 as int);
            lemma_iso_week_unique(self@, week.0 as int, week.1 as int);
            lemma_iso_year_bounds(self@, week.0 as int, week.1 as int);
        }
        week
    }

    /// The day of the week, Monday being 1.
    pub fn weekday(&self) -> (weekday: u32)
        ensures
            weekday == weekday_of(self@),
            1 <= weekday <= 7,
    {
        proof {
            use_type_invariant(self);
        }
        chrono_weekday(self.days)
    }

    /// The day of the year, starting from 1.
    pub fn ordinal(&self) -> (ordinal: u32)
        ensures
            ordinal == self@ - days_before_year(year_of(self@)),
    {
        proof {
            use_type_invariant(self);
        }
        chrono_ordinal(self.days)
    }

    /// The date `days` later, or earlier when `days` is negative.
    pub fn plus_days(&self, days: i64) -> (date: Date)
        requires
            in_calendar(self@ + days),
        ensures
            date@ == self@ + days,
    {
        proof {
            use_type_invariant(self);
        }
        Date { days: (self.days as i64 + days) as i32 }
    }

    /// The date `days` later, if it is in the calendar.
    pub fn checked_plus_days(&self, days: i64) -> (date: Option<Date>)
        ensures
            match date {
                Some(date) => date@ == self@ + days,
                None => !in_calendar(self@ + days),
            },
    {
        proof {
            use_type_invariant(self);
        }
        if days < -200_000_000 || days > 200_000_000 {
            return None;
        }
        let sum: i64 = self.days as i64 + days;
        if MIN_DAY as i64 <= sum && sum <= MAX_DAY as i64 {
            Some(Date { days: sum as i32 })
        } else {
            None
        }
    }

    /// The number of days from `earlier` to this date.
    pub fn days_since(&self, earlier: &Date) -> (days: i64)
        ensures
            days == self@ - earlier@,
    {
        proof {
            use_type_invariant(self);
            use_type_invariant(earlier);
        }
        self.days as i64 - earlier.days as i64
    }

    /// Is this date before the other?
    pub fn is_before(&self, other: &Date) -> (yes: bool)
        ensures
            yes == (self@ < other@),
    {
        self.days < other.days
    }

    /// The earlier of two dates.
    pub fn earlier(&self, other: &Date) -> (date: Date)
        ensures
            date@ == (if self@ <= other@ { self@ } else { other@ }),
    {
        if other.days < self.days {
            *other
        } else {
            *self
        }
    }

    /// The later of two dates.
    pub fn later(&self, other: &Date) -> (date: Date)
        ensures
            date@ == (if self@ >= other@ { self@ } else { other@ }),
    {
        if other.days > self.days {
            *other
        } else {
            *self
        }
    }

    /// The `YYYY-MM-DD` key of the date.
    pub fn key(&self) -> (key: String)
        ensures
            key@ == date_key(self@),
    {
        proof {
            use_type_invariant(self);
        }
        chrono_format(self.days)
    }

    /// Read a `YYYY-MM-DD` text; the error is the parser's own message.
    pub fn parse(text: &str) -> (outcome: Result<Date, String>)
        ensures
            match outcome {
                Ok(date) => parsed_date(text@) == Ok::<int, Seq<char>>(date@) && in_calendar(date@),
                Err(message) => parsed_date(text@) == Err::<int, Seq<char>>(message@),
            },
            forall|n: int|
                in_calendar(n) && text@ == #[trigger] date_key(n) ==> outcome is Ok
                    && outcome->Ok_0@ == n,
    {
        match chrono_parse(text) {
            Ok(days) => Ok(Date { days }),
            Err(message) => Err(message),
        }
    }
}

} // verus!
