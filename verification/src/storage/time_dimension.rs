//! Timezone-aware date/time dimension key derivation and row seeding.

use vstd::prelude::*;
use crate::calendar::{
    date_key, day_number, day_of, days_before_year, first_monday, in_calendar, is_civil,
    is_iso_week, iso_week_of, month_of, parsed_date, week_monday, weekday_of, weeks_in_year,
    year_of, Date, MAX_DAY, MIN_DAY,
};
use crate::clock::{
    has_local_date, local_day, local_hour, parsed_instant, utc_day, zone_known, Instant, Moment,
    Timezone, DEFAULT_TIMEZONE,
};
use crate::error::{is_config, is_invalid, Error};
use crate::number::{
    law_numbers_read_back, padded, parse_unsigned, push_two, unsigned_value,
};
use crate::period::{
    half_around, half_of_month, is_regular, key_column, law_keys_are_found_in_their_column,
    law_keys_tell_periods_apart, law_range_holds_exactly_the_days_of_the_period, month_around,
    quarter_around, quarter_month, quarter_of_month, span_around, span_end, span_key, span_start,
    week_around, year_around, Period, Span,
};
use crate::sql::{commands, flag_cell, Cell, Command, Statement};
use crate::storage::upsert::{
    column, field, fields, holds_in, ignore_sql, insert_or_ignore, Change, Column, Field,
};
use crate::text::{copy, join3, opt_str, split_at_first, split_once};

verus! {

/// Derived dimension keys for one UTC timestamp in a local timezone.
#[derive(Debug, PartialEq, Eq)]
pub struct LocalKeys {
    pub date_key: String,
    pub time_key: String,
}

// ---------------------------------------------------------------- zones

/// The name of the zone that a warehouse uses, given its `timezone` config.
pub open spec fn zone_name(stored: Option<Seq<char>>) -> Seq<char> {
    match stored {
        Some(name) => name,
        None => DEFAULT_TIMEZONE@,
    }
}

/// The zone that a warehouse uses where its configured zone may be unusable.
pub open spec fn usable_zone(stored: Option<Seq<char>>) -> Seq<char> {
    if zone_known(zone_name(stored)) {
        zone_name(stored)
    } else {
        DEFAULT_TIMEZONE@
    }
}

/// The statement that reads the `timezone` config.
pub const TIMEZONE_SQL: &'static str = "SELECT value FROM config WHERE key = 'timezone'";

/// The zone of a warehouse, from its stored `timezone` config (`None` where it
/// could not be read).
pub fn configured_timezone(stored: Option<&str>) -> (zone: Result<Timezone, Error>)
    ensures
        match zone {
            Ok(zone) => zone_known(zone_name(opt_str(stored))) && zone@ == zone_name(
                opt_str(stored),
            ),
            Err(error) => !zone_known(zone_name(opt_str(stored))) && is_config(
                error,
                "invalid timezone '"@ + zone_name(opt_str(stored)) + "'"@,
            ),
        },
        stored is None ==> zone is Ok,
{
    let name = match stored {
        Some(name) => name,
        None => DEFAULT_TIMEZONE,
    };
    match Timezone::parse(name) {
        Some(zone) => Ok(zone),
        None => Err(Error::Config(join3("invalid timezone '", name, "'"))),
    }
}

/// The calendar date `instant` falls on in `timezone`. DST-aware, because the
/// conversion goes through the zone's full transition table rather than a
/// fixed offset.
///
/// This is the single rule that relates a point in time to a `date_key`: the
/// same rule [`derive_local_keys`] applies to stored facts. An instant on the
/// first or the last day of the calendar is left out, because its local date
/// can lie outside the calendar.
pub fn local_date_for(instant: &Instant, timezone: &Timezone) -> (date: Date)
    requires
        has_local_date(instant@),
    ensures
        date@ == local_day(timezone@, instant@),
        utc_day(instant@.seconds) - 1 <= date@ <= utc_day(instant@.seconds) + 1,
{
    let parts = timezone.local_parts(instant);
    match Date::from_days(parts.0 as i32) {
        Some(date) => date,
        None => Date::first_of(1970, 1),
    }
}

/// "Today" in the warehouse's configured timezone, at `instant`.
pub fn today_as_of(stored: Option<&str>, instant: &Instant) -> (date: Result<Date, Error>)
    requires
        has_local_date(instant@),
    ensures
        match date {
            Ok(date) => zone_known(zone_name(opt_str(stored))) && date@ == local_day(
                zone_name(opt_str(stored)),
                instant@,
            ),
            Err(error) => !zone_known(zone_name(opt_str(stored))) && is_config(
                error,
                "invalid timezone '"@ + zone_name(opt_str(stored)) + "'"@,
            ),
        },
{
    match configured_timezone(stored) {
        Ok(zone) => Ok(local_date_for(instant, &zone)),
        Err(error) => Err(error),
    }
}

/// "Today" in the warehouse's configured timezone at `instant`, falling back to
/// the default zone when the configured value cannot be parsed.
pub fn today_or_default(stored: Option<&str>, instant: &Instant) -> (date: Date)
    requires
        has_local_date(instant@),
    ensures
        date@ == local_day(usable_zone(opt_str(stored)), instant@),
{
    let zone = match configured_timezone(stored) {
        Ok(zone) => zone,
        Err(_) => Timezone::fallback(),
    };
    local_date_for(instant, &zone)
}

/// The last *fully elapsed* day in the warehouse's configured timezone, at
/// `instant`.
///
/// Coverage records must never claim a day that is still in progress: items
/// created later in that same local day would be permanently skipped by any
/// reader that trusts the claim. Sealing only completed days makes the
/// watermark lag the truth instead of overstating it.
pub fn last_complete_day_as_of(stored: Option<&str>, instant: &Instant) -> (date: Result<
    Date,
    Error,
>)
    requires
        has_local_date(instant@),
        MIN_DAY + 1 < utc_day(instant@.seconds),
    ensures
        match date {
            Ok(date) => zone_known(zone_name(opt_str(stored))) && date@ == local_day(
                zone_name(opt_str(stored)),
                instant@,
            ) - 1,
            Err(error) => !zone_known(zone_name(opt_str(stored))) && is_config(
                error,
                "invalid timezone '"@ + zone_name(opt_str(stored)) + "'"@,
            ),
        },
{
    match configured_timezone(stored) {
        Ok(zone) => {
            let today = local_date_for(instant, &zone);
            Ok(today.plus_days(-1))
        },
        Err(error) => Err(error),
    }
}

/// A core-hours bound: the stored number, or the default where nothing usable
/// is stored.
pub open spec fn core_hour(stored: Option<Seq<char>>, default_hour: int) -> int {
    match stored {
        Some(text) => match unsigned_value(text, u32::MAX as int) {
            Some(hour) => hour,
            None => default_hour,
        },
        None => default_hour,
    }
}

fn read_hour(stored: Option<&str>, default_hour: u32) -> (hour: u32)
    ensures
        hour == core_hour(opt_str(stored), default_hour as int),
{
    match stored {
        Some(text) => match parse_unsigned(text, u32::MAX as u64) {
            Some(hour) => hour as u32,
            None => default_hour,
        },
        None => default_hour,
    }
}

/// The statement that reads one config value.
pub const CONFIG_SQL: &'static str = "SELECT value FROM config WHERE key = ?1";

/// The config key of the start of the core hours.
pub const CORE_HOURS_START_KEY: &'static str = "core_hours_start";

/// The config key of the end of the core hours.
pub const CORE_HOURS_END_KEY: &'static str = "core_hours_end";

/// The core-hours window (start inclusive, end exclusive), from the stored
/// config values.
pub fn configured_core_hours(start: Option<&str>, end: Option<&str>) -> (hours: (u32, u32))
    ensures
        hours.0 == core_hour(opt_str(start), 9),
        hours.1 == core_hour(opt_str(end), 17),
{
    (read_hour(start, 9), read_hour(end, 17))
}

// ---------------------------------------------------------------- keys

/// The message that refuses a timestamp.
pub open spec fn bad_timestamp(timestamp: Seq<char>, reason: Seq<char>) -> Seq<char> {
    "bad timestamp '"@ + timestamp + "': "@ + reason
}

/// Parse an ISO-8601 UTC timestamp.
pub fn parse_utc(timestamp: &str) -> (outcome: Result<Instant, Error>)
    ensures
        match parsed_instant(timestamp@) {
            Ok(parts) => outcome is Ok && outcome->Ok_0@ == (Moment {
                seconds: parts.0,
                nanos: parts.1,
            }),
            Err(reason) => outcome is Err && is_invalid(
                outcome->Err_0,
                bad_timestamp(timestamp@, reason),
            ),
        },
{
    match Instant::parse(timestamp) {
        Ok(instant) => Ok(instant),
        Err(reason) => Err(
            Error::InvalidArgument(
                crate::text::join4("bad timestamp '", timestamp, "': ", &reason),
            ),
        ),
    }
}

/// The key of a local day. A local day can lie one day outside the calendar.
pub open spec fn local_date_key(day: int) -> Seq<char> {
    if day > MAX_DAY {
        "+262143-01-01"@
    } else if day < MIN_DAY {
        "-262144-12-31"@
    } else {
        date_key(day)
    }
}

/// The key of an hour of the day.
pub open spec fn hour_key(hour: int) -> Seq<char> {
    padded(hour as nat, 2) + ":00"@
}

/// The keys are those of the instant in the zone.
pub open spec fn are_keys_of(keys: LocalKeys, zone: Seq<char>, moment: Moment) -> bool {
    &&& keys.date_key@ == local_date_key(local_day(zone, moment))
    &&& keys.time_key@ == hour_key(local_hour(zone, moment))
}

/// Derive local date/time keys for a UTC timestamp.
pub fn derive_local_keys(timestamp_utc: &Instant, timezone: &Timezone) -> (keys: LocalKeys)
    ensures
        are_keys_of(keys, timezone@, timestamp_utc@),
{
    let parts = timezone.local_parts(timestamp_utc);
    let date_key = if parts.0 > MAX_DAY as i64 {
        copy("+262143-01-01")
    } else if parts.0 < MIN_DAY as i64 {
        copy("-262144-12-31")
    } else {
        match Date::from_days(parts.0 as i32) {
            Some(date) => date.key(),
            None => String::new(),
        }
    };
    let mut time_key = String::new();
    push_two(&mut time_key, parts.1 as u64);
    time_key.append(":00");
    assert(time_key@ =~= hour_key(parts.1 as int));
    LocalKeys { date_key, time_key }
}

// ---------------------------------------------------------------- rows

/// The position of a day in its half year.
pub open spec fn half_position(day: int) -> int {
    day - day_number(
        year_of(day),
        if month_of(day) <= 6 {
            1
        } else {
            7
        },
        1,
    ) + 1
}

/// The position of a day in its quarter.
pub open spec fn quarter_position(day: int) -> int {
    day - day_number(year_of(day), quarter_month(quarter_of_month(month_of(day))), 1) + 1
}

fn day_of_half(date: &Date) -> (position: i64)
    ensures
        position == half_position(date@),
{
    let civil = date.civil();
    let start = Date::first_of(
        civil.0,
        if civil.1 <= 6 {
            1
        } else {
            7
        },
    );
    proof {
        use_type_invariant(date);
        use_type_invariant(&start);
    }
    date.days_since(&start) + 1
}

fn day_of_quarter(date: &Date) -> (position: i64)
    ensures
        position == quarter_position(date@),
        -200_000_000 < position < 200_000_000,
{
    let civil = date.civil();
    let start = Date::first_of(civil.0, ((civil.1 - 1) / 3) * 3 + 1);
    proof {
        use_type_invariant(date);
        use_type_invariant(&start);
    }
    date.days_since(&start) + 1
}

/// The columns of a row of the date dimension.
pub open spec fn date_fields() -> Seq<Field> {
    seq![
        field("date_key"@, Change::Key),
        field("year"@, Change::Keep),
        field("quarter"@, Change::Keep),
        field("month"@, Change::Keep),
        field("day_of_month"@, Change::Keep),
        field("day_of_week"@, Change::Keep),
        field("is_weekend"@, Change::Keep),
        field("week_of_year"@, Change::Keep),
        field("week_key"@, Change::Keep),
        field("month_key"@, Change::Keep),
        field("quarter_key"@, Change::Keep),
        field("year_key"@, Change::Keep),
        field("half_key"@, Change::Keep),
        field("day_of_quarter"@, Change::Keep),
        field("day_of_year"@, Change::Keep),
        field("day_of_half"@, Change::Keep),
        field("week_of_quarter"@, Change::Keep),
        field("month_of_quarter"@, Change::Keep),
        field("month_of_half"@, Change::Keep),
    ]
}

/// The text of the statement that seeds a row of the date dimension.
pub open spec fn date_sql() -> Seq<char> {
    ignore_sql("dim_date"@, date_fields())
}

fn date_insert() -> (statement: Statement)
    ensures
        statement@ == (Command { sql: date_sql(), params: Seq::empty() }),
{
    let mut columns: Vec<Column> = Vec::new();
    columns.push(column("date_key", Change::Key));
    columns.push(column("year", Change::Keep));
    columns.push(column("quarter", Change::Keep));
    columns.push(column("month", Change::Keep));
    columns.push(column("day_of_month", Change::Keep));
    columns.push(column("day_of_week", Change::Keep));
    columns.push(column("is_weekend", Change::Keep));
    columns.push(column("week_of_year", Change::Keep));
    columns.push(column("week_key", Change::Keep));
    columns.push(column("month_key", Change::Keep));
    columns.push(column("quarter_key", Change::Keep));
    columns.push(column("year_key", Change::Keep));
    columns.push(column("half_key", Change::Keep));
    columns.push(column("day_of_quarter", Change::Keep));
    columns.push(column("day_of_year", Change::Keep));
    columns.push(column("day_of_half", Change::Keep));
    columns.push(column("week_of_quarter", Change::Keep));
    columns.push(column("month_of_quarter", Change::Keep));
    columns.push(column("month_of_half", Change::Keep));
    assert(fields(columns@) =~= date_fields());
    insert_or_ignore("dim_date", &columns)
}

/// The row of the date dimension for a day, under the given key.
pub open spec fn date_row(key: Seq<char>, day: int) -> Command {
    let month = month_of(day);
    Command {
        sql: date_sql(),
        params: seq![
            Cell::Text(key),
            Cell::Integer(year_of(day)),
            Cell::Integer(quarter_of_month(month)),
            Cell::Integer(month),
            Cell::Integer(day_of(day)),
            Cell::Integer(weekday_of(day)),
            flag_cell(weekday_of(day) >= 6),
            Cell::Integer(iso_week_of(day).1),
            Cell::Text(span_key(week_around(day))),
            Cell::Text(span_key(month_around(day))),
            Cell::Text(span_key(quarter_around(day))),
            Cell::Text(span_key(year_around(day))),
            Cell::Text(span_key(half_around(day))),
            Cell::Integer(quarter_position(day)),
            Cell::Integer(day - days_before_year(year_of(day))),
            Cell::Integer(half_position(day)),
            Cell::Integer((quarter_position(day) - 1) / 7 + 1),
            Cell::Integer(month - quarter_month(quarter_of_month(month)) + 1),
            Cell::Integer(
                if half_of_month(month) == 1 {
                    month
                } else {
                    month - 6
                },
            ),
        ],
    }
}

/// The message that refuses a date key.
pub open spec fn bad_date_key(key: Seq<char>, reason: Seq<char>) -> Seq<char> {
    "bad date key '"@ + key + "': "@ + reason
}

/// Seed the `dim_date` row for a date.
fn date_statement(key: &str, date: &Date) -> (statement: Statement)
    ensures
        statement@ == date_row(key@, date@),
{
    let civil = date.civil();
    let week = date.iso_week();
    let year = civil.0;
    let month = civil.1;
    let quarter: u32 = (month - 1) / 3 + 1;
    let half: u8 = if month <= 6 {
        1
    } else {
        2
    };
    let quarter_start_month: u32 = ((month - 1) / 3) * 3 + 1;
    let weekday: u32 = date.weekday();
    let in_quarter: i64 = day_of_quarter(date);
    let in_half: i64 = day_of_half(date);
    proof {
        use_type_invariant(date);
        crate::calendar::lemma_months_follow(
            year as int,
            quarter_start_month as int,
            month as int,
        );
        assert(in_quarter >= 1);
    }
    let week_of_quarter: i64 = (in_quarter - 1) / 7 + 1;
    date_insert()
        .text(key)
        .integer(year as i64)
        .integer(quarter as i64)
        .integer(month as i64)
        .integer(civil.2 as i64)
        .integer(weekday as i64)
        .flag(weekday >= 6)
        .integer(week.1 as i64)
        .text(&Period::Week(week.0, week.1 as u8).to_key())
        .text(&Period::Month(year, month as u8).to_key())
        .text(&Period::Quarter(year, quarter as u8).to_key())
        .text(&Period::Year(year).to_key())
        .text(&Period::Half(year, half).to_key())
        .integer(in_quarter)
        .integer(date.ordinal() as i64)
        .integer(in_half)
        .integer(week_of_quarter)
        .integer((month - quarter_start_month + 1) as i64)
        .integer(
        if half == 1 {
            month as i64
        } else {
            month as i64 - 6
        },
    )
}

/// The statement that ensures a `dim_date` row for a `YYYY-MM-DD` key.
pub fn ensure_date_row(date_key: &str) -> (outcome: Result<Statement, Error>)
    ensures
        match parsed_date(date_key@) {
            Ok(day) => outcome is Ok && outcome->Ok_0@ == date_row(date_key@, day),
            Err(reason) => outcome is Err && is_invalid(
                outcome->Err_0,
                bad_date_key(date_key@, reason),
            ),
        },
        forall|day: int|
            in_calendar(day) && date_key@ == #[trigger] crate::calendar::date_key(day)
                ==> outcome is Ok && parsed_date(date_key@) == Ok::<int, Seq<char>>(day),
{
    match Date::parse(date_key) {
        Ok(date) => Ok(date_statement(date_key, &date)),
        Err(reason) => Err(
            Error::InvalidArgument(
                crate::text::join4("bad date key '", date_key, "': ", &reason),
            ),
        ),
    }
}

/// The columns of a row of the time dimension.
pub open spec fn time_fields() -> Seq<Field> {
    seq![
        field("time_key"@, Change::Key),
        field("hour"@, Change::Keep),
        field("hour_12"@, Change::Keep),
        field("am_pm"@, Change::Keep),
        field("time_bucket"@, Change::Keep),
        field("is_core_hours"@, Change::Keep),
    ]
}

/// The text of the statement that seeds a row of the time dimension.
pub open spec fn time_sql() -> Seq<char> {
    ignore_sql("dim_time"@, time_fields())
}

fn time_insert() -> (statement: Statement)
    ensures
        statement@ == (Command { sql: time_sql(), params: Seq::empty() }),
{
    let mut columns: Vec<Column> = Vec::new();
    columns.push(column("time_key", Change::Key));
    columns.push(column("hour", Change::Keep));
    columns.push(column("hour_12", Change::Keep));
    columns.push(column("am_pm", Change::Keep));
    columns.push(column("time_bucket", Change::Keep));
    columns.push(column("is_core_hours", Change::Keep));
    assert(fields(columns@) =~= time_fields());
    insert_or_ignore("dim_time", &columns)
}

/// The hour on a twelve-hour clock.
pub open spec fn twelve_hour(hour: int) -> int {
    if hour % 12 == 0 {
        12
    } else {
        hour % 12
    }
}

/// The part of the day that an hour lies in.
pub open spec fn time_bucket(hour: int) -> Seq<char> {
    if hour <= 5 {
        "Night"@
    } else if hour <= 11 {
        "Morning"@
    } else if hour <= 17 {
        "Afternoon"@
    } else {
        "Evening"@
    }
}

/// The row of the time dimension for an hour, under the given key.
pub open spec fn time_row(key: Seq<char>, hour: int, core_hours: (u32, u32)) -> Command {
    Command {
        sql: time_sql(),
        params: seq![
            Cell::Text(key),
            Cell::Integer(hour),
            Cell::Integer(twelve_hour(hour)),
            Cell::Text(
                if hour < 12 {
                    "AM"@
                } else {
                    "PM"@
                },
            ),
            Cell::Text(time_bucket(hour)),
            flag_cell(core_hours.0 <= hour < core_hours.1),
        ],
    }
}

/// The hour that a time key names: the number in front of its first colon.
pub open spec fn key_hour(key: Seq<char>) -> Option<int> {
    unsigned_value(
        match split_at_first(key, ':') {
            Some((hour, _)) => hour,
            None => key,
        },
        u32::MAX as int,
    )
}

/// The statement that ensures a `dim_time` row for an `HH:00` key.
pub fn ensure_time_row(time_key: &str, core_hours: (u32, u32)) -> (outcome: Result<Statement, Error>)
    ensures
        match key_hour(time_key@) {
            Some(hour) => outcome is Ok && outcome->Ok_0@ == time_row(time_key@, hour, core_hours),
            None => outcome is Err && is_invalid(
                outcome->Err_0,
                "bad time key '"@ + time_key@ + "'"@,
            ),
        },
{
    let hour_text = match split_once(time_key, ':') {
        Some((hour, _)) => hour,
        None => copy(time_key),
    };
    let hour: u32 = match parse_unsigned(&hour_text, u32::MAX as u64) {
        Some(hour) => hour as u32,
        None => return Err(Error::InvalidArgument(join3("bad time key '", time_key, "'"))),
    };
    let hour_12: u32 = if hour % 12 == 0 {
        12
    } else {
        hour % 12
    };
    let am_pm = if hour < 12 {
        "AM"
    } else {
        "PM"
    };
    let bucket = if hour <= 5 {
        "Night"
    } else if hour <= 11 {
        "Morning"
    } else if hour <= 17 {
        "Afternoon"
    } else {
        "Evening"
    };
    let statement = time_insert()
        .text(time_key)
        .integer(hour as i64)
        .integer(hour_12 as i64)
        .text(am_pm)
        .text(bucket)
        .flag(hour >= core_hours.0 && hour < core_hours.1);
    Ok(statement)
}

/// The key of an hour names that hour.
proof fn lemma_hour_key(hour: int)
    requires
        0 <= hour < 24,
    ensures
        key_hour(hour_key(hour)) == Some(hour),
{
    let digits = padded(hour as nat, 2);
    let key = hour_key(hour);
    reveal_strlit(":00");
    law_numbers_read_back(hour as nat, 2, u32::MAX as int);
    crate::number::lemma_padded_reads_back(hour as nat, 2);
    let at = digits.len() as int;
    assert(key[at] == ':');
    assert forall|k: int| 0 <= k < at implies key[k] != ':' by {
        assert(crate::number::is_digit(digits[k]));
        assert(key[k] == digits[k]);
    }
    assert(crate::text::is_first_at(key, ':', at));
    let found = crate::text::first_index(key, ':');
    assert(crate::text::is_first_at(key, ':', found));
    assert(found == at);
    assert(key.take(at) =~= digits);
}

/// What seeding the dimensions for a timestamp comes to: the message that
/// refuses it, or the instant.
pub open spec fn timestamp_moment(timestamp: Seq<char>, zone: Seq<char>) -> Result<Moment, Seq<char>> {
    match parsed_instant(timestamp) {
        Ok(parts) => {
            let moment = Moment { seconds: parts.0, nanos: parts.1 };
            match parsed_date(local_date_key(local_day(zone, moment))) {
                Ok(_) => Ok(moment),
                Err(reason) => Err(bad_date_key(local_date_key(local_day(zone, moment)), reason)),
            }
        },
        Err(reason) => Err(bad_timestamp(timestamp, reason)),
    }
}

/// The local day of a timestamp, as its key says it.
pub open spec fn key_day(zone: Seq<char>, moment: Moment) -> int {
    parsed_date(local_date_key(local_day(zone, moment)))->Ok_0
}

/// The rows that the dimensions need for an instant.
pub open spec fn key_rows(zone: Seq<char>, moment: Moment, core_hours: (u32, u32)) -> Seq<Command> {
    seq![
        date_row(local_date_key(local_day(zone, moment)), key_day(zone, moment)),
        time_row(hour_key(local_hour(zone, moment)), local_hour(zone, moment), core_hours),
    ]
}

/// The keys of a timestamp and the statements that make sure both dimension
/// rows exist.
pub fn ensure_keys_for_timestamp(
    timestamp: &str,
    timezone: &Timezone,
    core_hours: (u32, u32),
) -> (outcome: Result<(LocalKeys, Vec<Statement>), Error>)
    ensures
        match timestamp_moment(timestamp@, timezone@) {
            Ok(moment) => {
                &&& outcome is Ok
                &&& are_keys_of(outcome->Ok_0.0, timezone@, moment)
                &&& commands(outcome->Ok_0.1@) == key_rows(timezone@, moment, core_hours)
            },
            Err(message) => outcome is Err && is_invalid(outcome->Err_0, message),
        },
        parsed_instant(timestamp@) matches Ok(parts) ==> {
            let day = local_day(timezone@, Moment { seconds: parts.0, nanos: parts.1 });
            in_calendar(day) ==> outcome is Ok && key_day(
                timezone@,
                Moment { seconds: parts.0, nanos: parts.1 },
            ) == day
        },
{
    let utc = match parse_utc(timestamp) {
        Ok(utc) => utc,
        Err(error) => return Err(error),
    };
    let keys = derive_local_keys(&utc, timezone);
    let date_statement = match ensure_date_row(&keys.date_key) {
        Ok(statement) => statement,
        Err(error) => return Err(error),
    };
    proof {
        let hour = local_hour(timezone@, utc@);
        assert(0 <= hour < 24);
        lemma_hour_key(hour);
    }
    let time_statement = match ensure_time_row(&keys.time_key, core_hours) {
        Ok(statement) => statement,
        Err(error) => return Err(error),
    };
    let mut statements = Vec::new();
    statements.push(date_statement);
    statements.push(time_statement);
    assert(commands(statements@) =~= key_rows(timezone@, utc@, core_hours));
    Ok((keys, statements))
}

// ---------------------------------------------------------------- laws

/// The names of the columns of the date dimension tell them apart.
proof fn lemma_date_columns()
    ensures
        forall|i: int|
            0 <= i < date_fields().len() && (#[trigger] date_fields()[i]).name == "week_key"@
                <==> i == 8,
        forall|i: int|
            0 <= i < date_fields().len() && (#[trigger] date_fields()[i]).name == "month_key"@
                <==> i == 9,
        forall|i: int|
            0 <= i < date_fields().len() && (#[trigger] date_fields()[i]).name == "quarter_key"@
                <==> i == 10,
        forall|i: int|
            0 <= i < date_fields().len() && (#[trigger] date_fields()[i]).name == "year_key"@
                <==> i == 11,
        forall|i: int|
            0 <= i < date_fields().len() && (#[trigger] date_fields()[i]).name == "half_key"@
                <==> i == 12,
{
    reveal_strlit("date_key");
    reveal_strlit("year");
    reveal_strlit("quarter");
    reveal_strlit("month");
    reveal_strlit("day_of_month");
    reveal_strlit("day_of_week");
    reveal_strlit("is_weekend");
    reveal_strlit("week_of_year");
    reveal_strlit("week_key");
    reveal_strlit("month_key");
    reveal_strlit("quarter_key");
    reveal_strlit("year_key");
    reveal_strlit("half_key");
    reveal_strlit("day_of_quarter");
    reveal_strlit("day_of_year");
    reveal_strlit("day_of_half");
    reveal_strlit("week_of_quarter");
    reveal_strlit("month_of_quarter");
    reveal_strlit("month_of_half");
    assert("week_key"@.len() == 8 && "week_key"@[0] == 'w');
    assert("year_key"@.len() == 8 && "year_key"@[0] == 'y');
    assert("half_key"@.len() == 8 && "half_key"@[0] == 'h');
    assert("date_key"@.len() == 8 && "date_key"@[0] == 'd');
    assert("month_key"@.len() == 9);
    assert("quarter_key"@.len() == 11 && "quarter_key"@[0] == 'q');
    assert("day_of_week"@.len() == 11 && "day_of_week"@[0] == 'd');
    assert("day_of_year"@.len() == 11 && "day_of_year"@[0] == 'd');
    assert("day_of_half"@.len() == 11 && "day_of_half"@[0] == 'd');
}

/// A period selects exactly its days. In the column that a period's key is
/// looked up in, the row of a day holds that key if and only if the day lies
/// between the first and the last day of the period. (The sign of a year before
/// the first reads like the hyphen of a month.)
pub proof fn law_a_period_selects_exactly_its_days(
    span: Span,
    key: Seq<char>,
    day: int,
    year: int,
    month: int,
    of_month: int,
    iso_year: int,
    week: int,
)
    requires
        is_regular(span),
        !(span is Rolling),
        span matches Span::Year(year) ==> year >= 0,
        is_civil(day, year, month, of_month),
        is_iso_week(day, iso_year, week),
    ensures
        date_row(key, day).sql == ignore_sql("dim_date"@, date_fields()),
        date_row(key, day).params.len() == date_fields().len(),
        holds_in(
            date_fields(),
            date_row(key, day).params,
            key_column(span_key(span)),
            Cell::Text(span_key(span)),
        ) <==> span_start(span) <= day <= span_end(span),
{
    crate::calendar::lemma_civil_unique(day, year, month, of_month);
    crate::calendar::lemma_iso_week_unique(day, iso_year, week);
    crate::calendar::lemma_iso_year(iso_year);
    lemma_date_columns();
    law_keys_are_found_in_their_column(span);
    law_range_holds_exactly_the_days_of_the_period(
        span,
        day,
        year,
        month,
        of_month,
        iso_year,
        week,
    );
    let around = span_around(span, day);
    assert(week >= 1) by {
        assert(week_monday(iso_year, week) + 7 > first_monday(iso_year));
    }
    law_keys_tell_periods_apart(around, span);
    let at: int = match span {
        Span::Week(_, _) => 8,
        Span::Month(_, _) => 9,
        Span::Quarter(_, _) => 10,
        Span::Year(_) => 11,
        _ => 12,
    };
    let params = date_row(key, day).params;
    assert(date_fields()[at].name == key_column(span_key(span)));
    assert(params[at] == Cell::Text(span_key(around)));
    if holds_in(date_fields(), params, key_column(span_key(span)), Cell::Text(span_key(span))) {
        let i = choose|i: int|
            0 <= i < date_fields().len() && i < params.len() && (
            #[trigger] date_fields()[i]).name == key_column(span_key(span)) && params[i]
                == Cell::Text(span_key(span));
        assert(i == at);
    }
}

/// The positional columns of a day's row count from the first day of the
/// period: the day's place in its year, half, quarter, month and ISO week. So a
/// bound on the place cuts a period back to its first days.
pub proof fn law_positions_count_from_the_start_of_the_period(
    key: Seq<char>,
    day: int,
    year: int,
    month: int,
    of_month: int,
    iso_year: int,
    week: int,
)
    requires
        is_civil(day, year, month, of_month),
        is_iso_week(day, iso_year, week),
        in_calendar(week_monday(iso_year, week)),
        1 <= week <= weeks_in_year(iso_year),
    ensures
        ({
            let row = date_row(key, day).params;
            &&& holds_in(
                date_fields(),
                row,
                "day_of_year"@,
                Cell::Integer(day - span_start(year_around(day)) + 1),
            )
            &&& holds_in(
                date_fields(),
                row,
                "day_of_half"@,
                Cell::Integer(day - span_start(half_around(day)) + 1),
            )
            &&& holds_in(
                date_fields(),
                row,
                "day_of_quarter"@,
                Cell::Integer(day - span_start(quarter_around(day)) + 1),
            )
            &&& holds_in(
                date_fields(),
                row,
                "day_of_month"@,
                Cell::Integer(day - span_start(month_around(day)) + 1),
            )
            &&& holds_in(
                date_fields(),
                row,
                "day_of_week"@,
                Cell::Integer(day - span_start(week_around(day)) + 1),
            )
        }),
{
    crate::calendar::lemma_civil_unique(day, year, month, of_month);
    crate::calendar::lemma_iso_week_unique(day, iso_year, week);
    crate::calendar::lemma_iso_year(iso_year);
    let row = date_row(key, day).params;
    assert(weekday_of(day) == day - week_monday(iso_year, week) + 1);
    assert(row[14] == Cell::Integer(day - span_start(year_around(day)) + 1));
    assert(date_fields()[14].name == "day_of_year"@);
    assert(row[15] == Cell::Integer(day - span_start(half_around(day)) + 1));
    assert(date_fields()[15].name == "day_of_half"@);
    assert(row[13] == Cell::Integer(day - span_start(quarter_around(day)) + 1));
    assert(date_fields()[13].name == "day_of_quarter"@);
    assert(row[4] == Cell::Integer(day - span_start(month_around(day)) + 1));
    assert(date_fields()[4].name == "day_of_month"@);
    assert(row[5] == Cell::Integer(day - span_start(week_around(day)) + 1));
    assert(date_fields()[5].name == "day_of_week"@);
}

/// A day's row is filed under its key and names the year, the month and the ISO
/// week that the day lies in, the quarter that holds its month, and the weekend.
pub proof fn law_a_date_row_names_its_day(
    key: Seq<char>,
    day: int,
    year: int,
    month: int,
    of_month: int,
    iso_year: int,
    week: int,
    quarter: int,
)
    requires
        is_civil(day, year, month, of_month),
        is_iso_week(day, iso_year, week),
        3 * quarter - 2 <= month <= 3 * quarter,
    ensures
        ({
            let row = date_row(key, day).params;
            &&& holds_in(date_fields(), row, "date_key"@, Cell::Text(key))
            &&& holds_in(date_fields(), row, "year"@, Cell::Integer(year))
            &&& holds_in(date_fields(), row, "quarter"@, Cell::Integer(quarter))
            &&& holds_in(date_fields(), row, "month"@, Cell::Integer(month))
            &&& holds_in(date_fields(), row, "day_of_month"@, Cell::Integer(of_month))
            &&& holds_in(date_fields(), row, "week_of_year"@, Cell::Integer(week))
            &&& holds_in(
                date_fields(),
                row,
                "is_weekend"@,
                flag_cell(day >= week_monday(iso_year, week) + 5),
            )
            &&& holds_in(
                date_fields(),
                row,
                "month_of_quarter"@,
                Cell::Integer(month - 3 * (quarter - 1)),
            )
            &&& holds_in(
                date_fields(),
                row,
                "month_of_half"@,
                Cell::Integer(
                    if month <= 6 {
                        month
                    } else {
                        month - 6
                    },
                ),
            )
            &&& exists|place: int, n: int|
                {
                    &&& #[trigger] holds_in(
                        date_fields(),
                        row,
                        "day_of_quarter"@,
                        Cell::Integer(place),
                    )
                    &&& #[trigger] holds_in(
                        date_fields(),
                        row,
                        "week_of_quarter"@,
                        Cell::Integer(n),
                    )
                    &&& 7 * (n - 1) < place <= 7 * n
                }
        }),
{
    crate::calendar::lemma_civil_unique(day, year, month, of_month);
    crate::calendar::lemma_iso_week_unique(day, iso_year, week);
    crate::calendar::lemma_iso_year(iso_year);
    let row = date_row(key, day).params;
    assert(weekday_of(day) == day - week_monday(iso_year, week) + 1);
    assert(quarter_of_month(month) == quarter);
    assert(date_fields()[0].name == "date_key"@ && row[0] == Cell::Text(key));
    assert(date_fields()[1].name == "year"@ && row[1] == Cell::Integer(year));
    assert(date_fields()[2].name == "quarter"@ && row[2] == Cell::Integer(quarter));
    assert(date_fields()[3].name == "month"@ && row[3] == Cell::Integer(month));
    assert(date_fields()[4].name == "day_of_month"@ && row[4] == Cell::Integer(of_month));
    assert(date_fields()[6].name == "is_weekend"@);
    assert(date_fields()[7].name == "week_of_year"@ && row[7] == Cell::Integer(week));
    assert(date_fields()[17].name == "month_of_quarter"@);
    assert(row[17] == Cell::Integer(month - 3 * (quarter - 1)));
    assert(date_fields()[18].name == "month_of_half"@);
    let place = quarter_position(day);
    let n = (place - 1) / 7 + 1;
    assert(date_fields()[13].name == "day_of_quarter"@ && row[13] == Cell::Integer(place));
    assert(date_fields()[16].name == "week_of_quarter"@ && row[16] == Cell::Integer(n));
    assert(holds_in(date_fields(), row, "day_of_quarter"@, Cell::Integer(place)));
    assert(holds_in(date_fields(), row, "week_of_quarter"@, Cell::Integer(n)));
}

/// An hour's row names the hour on both clocks, its part of the day and whether
/// it is a core hour: from the start of the core hours up to, not at, their end.
pub proof fn law_a_time_row_names_its_hour(
    key: Seq<char>,
    hour: int,
    core_hours: (u32, u32),
    twelve: int,
)
    requires
        0 <= hour < 24,
        1 <= twelve <= 12,
        twelve == hour || twelve == hour + 12 || twelve == hour - 12,
    ensures
        ({
            let row = time_row(key, hour, core_hours).params;
            &&& time_row(key, hour, core_hours).sql == ignore_sql("dim_time"@, time_fields())
            &&& holds_in(time_fields(), row, "time_key"@, Cell::Text(key))
            &&& holds_in(time_fields(), row, "hour"@, Cell::Integer(hour))
            &&& holds_in(time_fields(), row, "hour_12"@, Cell::Integer(twelve))
            &&& hour < 12 ==> holds_in(time_fields(), row, "am_pm"@, Cell::Text("AM"@))
            &&& hour >= 12 ==> holds_in(time_fields(), row, "am_pm"@, Cell::Text("PM"@))
            &&& hour < 6 ==> holds_in(time_fields(), row, "time_bucket"@, Cell::Text("Night"@))
            &&& 6 <= hour < 12 ==> holds_in(
                time_fields(),
                row,
                "time_bucket"@,
                Cell::Text("Morning"@),
            )
            &&& 12 <= hour < 18 ==> holds_in(
                time_fields(),
                row,
                "time_bucket"@,
                Cell::Text("Afternoon"@),
            )
            &&& 18 <= hour ==> holds_in(
                time_fields(),
                row,
                "time_bucket"@,
                Cell::Text("Evening"@),
            )
            &&& holds_in(
                time_fields(),
                row,
                "is_core_hours"@,
                Cell::Integer(
                    if core_hours.0 <= hour < core_hours.1 {
                        1
                    } else {
                        0
                    },
                ),
            )
        }),
{
    let row = time_row(key, hour, core_hours).params;
    assert(time_fields()[0].name == "time_key"@ && row[0] == Cell::Text(key));
    assert(time_fields()[1].name == "hour"@ && row[1] == Cell::Integer(hour));
    assert(time_fields()[2].name == "hour_12"@ && row[2] == Cell::Integer(twelve));
    assert(time_fields()[3].name == "am_pm"@);
    assert(time_fields()[4].name == "time_bucket"@);
    assert(time_fields()[5].name == "is_core_hours"@);
}

} // verus!
