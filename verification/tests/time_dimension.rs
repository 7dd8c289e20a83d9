use githubdw::calendar::Date;
use githubdw::clock::{Instant, Timezone};
use githubdw::error::Error;
use githubdw::sql::{SqlValue, Statement};
use githubdw::storage::schema;
use githubdw::storage::time_dimension::{
    configured_core_hours, configured_timezone, derive_local_keys, ensure_date_row,
    ensure_keys_for_timestamp, ensure_time_row, last_complete_day_as_of, local_date_for, parse_utc,
    today_as_of, today_or_default, TIMEZONE_SQL,
};
use rusqlite::types::Value;
use rusqlite::Connection;
use rusqlite_migration::{Migrations, M};

fn open() -> Connection {
    let mut conn = Connection::open_in_memory().expect("open in-memory db");
    let steps: Vec<M<'static>> = schema::migrations().into_iter().map(M::up).collect();
    conn.pragma_update(None, "foreign_keys", "OFF").expect("foreign keys off");
    Migrations::new(steps).to_latest(&mut conn).expect("migrate");
    conn.pragma_update(None, "foreign_keys", "ON").expect("foreign keys on");
    conn
}

fn bound(statement: &Statement) -> Vec<Value> {
    statement
        .params
        .iter()
        .map(|value| match value {
            SqlValue::Null => Value::Null,
            SqlValue::Integer(n) => Value::Integer(*n),
            SqlValue::Text(text) => Value::Text(text.clone()),
        })
        .collect()
}

fn execute(conn: &Connection, statement: &Statement) -> rusqlite::Result<usize> {
    conn.execute(&statement.sql, rusqlite::params_from_iter(bound(statement)))
}

fn date(year: i32, month: u32, day: u32) -> Date {
    Date::from_ymd_opt(year, month, day).unwrap()
}

fn at(text: &str) -> Instant {
    Instant::parse(text).unwrap()
}

fn los_angeles() -> Timezone {
    Timezone::parse("America/Los_Angeles").unwrap()
}

fn set_timezone(conn: &Connection, name: &str) {
    conn.execute(
        "INSERT INTO config (key, value) VALUES ('timezone', ?1)
         ON CONFLICT (key) DO UPDATE SET value = excluded.value",
        [name],
    )
    .unwrap();
}

fn stored_timezone(conn: &Connection) -> String {
    conn.query_row(TIMEZONE_SQL, [], |row| row.get(0)).unwrap()
}

fn today(conn: &Connection, instant: &Instant) -> Date {
    today_as_of(Some(&stored_timezone(conn)), instant).unwrap()
}

fn last_complete_day(conn: &Connection, instant: &Instant) -> Date {
    last_complete_day_as_of(Some(&stored_timezone(conn)), instant).unwrap()
}

#[test]
fn derives_local_keys_across_dst() {
    // Winter (PST, UTC-8): 10:00Z -> 02:00 local.
    let keys = derive_local_keys(&at("2026-01-15T10:00:00Z"), &los_angeles());
    assert_eq!(keys.date_key, "2026-01-15");
    assert_eq!(keys.time_key, "02:00");

    // Summer (PDT, UTC-7): 10:00Z -> 03:00 local.
    let keys = derive_local_keys(&at("2026-07-15T10:00:00Z"), &los_angeles());
    assert_eq!(keys.time_key, "03:00");
}

#[test]
fn date_rollover_at_local_midnight() {
    // 06:00Z on Jan 2 is 22:00 on Jan 1 in Los Angeles.
    let keys = derive_local_keys(&at("2026-01-02T06:00:00Z"), &los_angeles());
    assert_eq!(keys.date_key, "2026-01-01");
    assert_eq!(keys.time_key, "22:00");
}

#[test]
fn today_uses_the_configured_zone_not_utc() {
    let conn = open();
    set_timezone(&conn, "America/Los_Angeles");

    // 2026-07-01T01:00:00Z is 2026-06-30 18:00 PDT: still June locally.
    let instant = at("2026-07-01T01:00:00Z");
    assert_eq!(today(&conn, &instant), date(2026, 6, 30));
    assert_ne!(today(&conn, &instant), instant.utc_date());

    // Same rule under standard time (UTC-8).
    let winter = at("2026-01-01T01:00:00Z");
    assert_eq!(today(&conn, &winter), date(2025, 12, 31));
}

#[test]
fn today_is_config_driven_in_both_directions() {
    let east = open();
    set_timezone(&east, "Pacific/Kiritimati"); // UTC+14
    let west = open();
    set_timezone(&west, "Etc/GMT+12"); // UTC-12

    let instant = at("2026-03-10T12:00:00Z");
    let east_today = today(&east, &instant);
    let west_today = today(&west, &instant);
    assert_eq!(east_today, date(2026, 3, 11));
    assert_eq!(west_today, date(2026, 3, 10));
    assert_ne!(east_today, west_today, "the zone comes from config");
}

#[test]
fn last_complete_day_trails_local_today() {
    let conn = open();
    set_timezone(&conn, "America/Los_Angeles");

    let instant = at("2026-08-16T16:31:57Z");
    assert_eq!(last_complete_day(&conn, &instant), date(2026, 8, 15));

    // Evening in LA: the 17th has not started locally.
    let evening = at("2026-08-17T03:00:00Z");
    assert_eq!(last_complete_day(&conn, &evening), date(2026, 8, 15));
}

#[test]
fn week_key_uses_the_iso_week_year() {
    let conn = open();
    execute(&conn, &ensure_date_row("2024-12-30").unwrap()).unwrap();
    let (week_key, year_key): (String, String) = conn
        .query_row(
            "SELECT week_key, year_key FROM dim_date WHERE date_key = '2024-12-30'",
            [],
            |row| Ok((row.get(0)?, row.get(1)?)),
        )
        .unwrap();
    assert_eq!(week_key, "2025-W01");
    assert_eq!(year_key, "2024", "calendar year is unaffected");
}

#[test]
fn a_date_row_holds_every_position_of_the_day() {
    let conn = open();
    execute(&conn, &ensure_date_row("2026-08-15").unwrap()).unwrap();
    execute(&conn, &ensure_date_row("2026-08-15").unwrap()).unwrap();
    let row: Vec<i64> = conn
        .query_row(
            "SELECT year, quarter, month, day_of_month, day_of_week, is_weekend, week_of_year,
                    day_of_quarter, day_of_year, day_of_half, week_of_quarter,
                    month_of_quarter, month_of_half
             FROM dim_date WHERE date_key = '2026-08-15'",
            [],
            |row| (0..13).map(|i| row.get(i)).collect(),
        )
        .unwrap();
    assert_eq!(row[..7], [2026, 3, 8, 15, row[4], 1, 33]);
    assert_eq!(row[7], 46, "July has 31 days");
    assert_eq!(row[8], 227);
    assert_eq!(row[9], 46);
    assert_eq!(row[11], 2);
    assert_eq!(row[12], 2);
    let count: i64 = conn
        .query_row("SELECT COUNT(*) FROM dim_date", [], |row| row.get(0))
        .unwrap();
    assert_eq!(count, 1, "seeding a day twice keeps one row");
}

#[test]
fn time_rows_know_the_core_hours() {
    let conn = open();
    for key in ["00:15", "10:00", "17:00"] {
        execute(&conn, &ensure_time_row(key, (9, 17)).unwrap()).unwrap();
    }
    let read = |key: &str| -> (i64, i64, String, i64) {
        conn.query_row(
            "SELECT hour, hour_12, am_pm, is_core_hours FROM dim_time WHERE time_key = ?1",
            [key],
            |row| Ok((row.get(0)?, row.get(1)?, row.get(2)?, row.get(3)?)),
        )
        .unwrap()
    };
    assert_eq!(read("00:15"), (0, 12, "AM".to_string(), 0));
    assert_eq!(read("10:00"), (10, 10, "AM".to_string(), 1));
    assert_eq!(read("17:00").1, 5);
    assert_eq!(read("17:00").3, 0, "the end of the core hours is outside");
}

#[test]
fn unreadable_keys_and_timestamps_are_refused() {
    assert!(matches!(ensure_date_row("not-a-date"), Err(Error::InvalidArgument(_))));
    assert!(matches!(ensure_time_row("noon", (9, 17)), Err(Error::InvalidArgument(_))));
    assert!(matches!(parse_utc("yesterday"), Err(Error::InvalidArgument(_))));
    assert!(matches!(
        ensure_keys_for_timestamp("yesterday", &los_angeles(), (9, 17)),
        Err(Error::InvalidArgument(_))
    ));
}

#[test]
fn keys_of_a_timestamp_come_with_their_rows() {
    let conn = open();
    let (keys, statements) =
        ensure_keys_for_timestamp("2026-01-02T06:00:00Z", &los_angeles(), (9, 17)).unwrap();
    assert_eq!(keys.date_key, "2026-01-01");
    assert_eq!(keys.time_key, "22:00");
    for statement in &statements {
        execute(&conn, statement).unwrap();
    }
    let found: i64 = conn
        .query_row(
            "SELECT COUNT(*) FROM dim_date, dim_time
             WHERE date_key = '2026-01-01' AND time_key = '22:00'",
            [],
            |row| row.get(0),
        )
        .unwrap();
    assert_eq!(found, 1);
}

#[test]
fn zones_and_core_hours_have_defaults() {
    assert_eq!(configured_timezone(None).unwrap().name(), "America/Los_Angeles");
    assert_eq!(configured_timezone(Some("Europe/Paris")).unwrap().name(), "Europe/Paris");
    assert!(matches!(configured_timezone(Some("Mars/Base")), Err(Error::Config(_))));
    assert_eq!(configured_core_hours(None, None), (9, 17));
    assert_eq!(configured_core_hours(Some("8"), Some("18")), (8, 18));
    assert_eq!(configured_core_hours(Some("early"), Some("18")), (9, 18));
}

#[test]
fn local_dates_stay_within_a_day_of_utc() {
    for name in ["Pacific/Kiritimati", "Etc/GMT+12", "UTC", "Asia/Kathmandu"] {
        let zone = Timezone::parse(name).unwrap();
        for text in ["2026-03-10T00:00:00Z", "2026-03-10T12:00:00Z", "2026-03-10T23:59:59Z"] {
            let local = local_date_for(&at(text), &zone);
            let apart = local.days_since(&at(text).utc_date());
            assert!((-1..=1).contains(&apart), "{name} {text}");
        }
    }
}

#[test]
fn an_unknown_zone_falls_back_to_the_default_for_today() {
    let instant = at("2026-07-01T01:00:00Z");
    assert_eq!(today_or_default(Some("Mars/Base"), &instant), date(2026, 6, 30));
    assert_eq!(today_or_default(Some("Pacific/Kiritimati"), &instant), date(2026, 7, 1));
    assert_eq!(today_or_default(None, &instant), date(2026, 6, 30));
}
