use githubdw::calendar::Date;
use githubdw::clock::Instant;
use githubdw::error::Error;
use githubdw::sql::{Batch, SqlValue, Statement};
use githubdw::storage::schema;
use githubdw::storage::sync_state_repository::{
    acquire_lock, advance_cursor, complete_job, coverage_extent, coverage_extent_as_of, fail_job,
    gaps, gaps_as_of, last_updated_cursor, overlapping_ranges, record_range, record_range_as_of,
    record_window, release_lock, start_job, update_lock_progress, RangeRow, EXTENT_SQL,
    ORDERED_RANGES_SQL,
};
use rusqlite::types::Value;
use rusqlite::{Connection, OptionalExtension};
use rusqlite_migration::{Migrations, M};

fn open() -> Connection {
    let mut conn = Connection::open_in_memory().expect("open in-memory db");
    let steps: Vec<M<'static>> = schema::migrations().into_iter().map(M::up).collect();
    conn.pragma_update(None, "foreign_keys", "OFF").expect("foreign keys off");
    Migrations::new(steps).to_latest(&mut conn).expect("migrate");
    conn.pragma_update(None, "foreign_keys", "ON").expect("foreign keys on");
    conn
}

fn bound(statement: &Statement) -> Vec<Value> {
    statement
        .params
        .iter()
        .map(|value| match value {
            SqlValue::Null => Value::Null,
            SqlValue::Integer(n) => Value::Integer(*n),
            SqlValue::Text(text) => Value::Text(text.clone()),
        })
        .collect()
}

fn execute(conn: &Connection, statement: &Statement) -> rusqlite::Result<usize> {
    conn.execute(&statement.sql, rusqlite::params_from_iter(bound(statement)))
}

fn date(year: i32, month: u32, day: u32) -> Date {
    Date::from_ymd_opt(year, month, day).unwrap()
}

fn parsed(text: &str) -> Date {
    Date::parse(text).unwrap()
}

fn run(conn: &Connection, batch: Batch) -> Result<(), Error> {
    for statement in &batch.statements {
        execute(conn, statement).unwrap();
    }
    match batch.failure {
        Some(error) => Err(error),
        None => Ok(()),
    }
}

const NOW: &str = "2026-08-16T12:00:00+00:00";

fn lock(conn: &Connection, entity: &str, now: &str) -> Result<(), Error> {
    let existing: Option<String> = conn
        .query_row(
            "SELECT started_at FROM sync_locks WHERE entity_key = ?1",
            [entity],
            |row| row.get(0),
        )
        .optional()
        .unwrap();
    let instant = Instant::parse(now).unwrap();
    for statement in acquire_lock(entity, existing.as_deref(), &instant, now)? {
        execute(conn, &statement).unwrap();
    }
    Ok(())
}

fn unlock(conn: &Connection, entity: &str) {
    for statement in release_lock(entity) {
        execute(conn, &statement).unwrap();
    }
}

fn overlapping(conn: &Connection, entity: &str, start: &str, end: &str) -> Vec<RangeRow> {
    let statement = overlapping_ranges(entity, &parsed(start), &parsed(end));
    let mut prepared = conn.prepare(&statement.sql).unwrap();
    let rows = prepared
        .query_map(rusqlite::params_from_iter(bound(&statement)), |row| {
            Ok(RangeRow {
                start_date: row.get(0)?,
                end_date: row.get(1)?,
                item_count: row.get(2)?,
            })
        })
        .unwrap();
    rows.map(|row| row.unwrap()).collect()
}

/// The last complete day where a test does not say otherwise.
fn yesterday() -> Date {
    date(2026, 8, 15)
}

fn record(conn: &Connection, entity: &str, start: &str, end: &str, count: i64) {
    let rows = overlapping(conn, entity, start, end);
    run(conn, record_range(entity, start, end, count, yesterday(), &rows, NOW)).unwrap();
}

fn ordered(conn: &Connection, entity: &str) -> Vec<(String, String)> {
    let mut prepared = conn.prepare(ORDERED_RANGES_SQL).unwrap();
    let rows = prepared
        .query_map([entity], |row| Ok((row.get(0)?, row.get(1)?)))
        .unwrap();
    rows.map(|row| row.unwrap()).collect()
}

fn extent(conn: &Connection, entity: &str) -> (Option<String>, Option<String>) {
    conn.query_row(EXTENT_SQL, [entity], |row| Ok((row.get(0)?, row.get(1)?)))
        .unwrap()
}

fn cursor(conn: &Connection, source_type: &str, source: &str) -> Option<String> {
    let statement = last_updated_cursor(source_type, source);
    conn.query_row(
        &statement.sql,
        rusqlite::params_from_iter(bound(&statement)),
        |row| row.get(0),
    )
    .optional()
    .unwrap()
    .flatten()
}

fn pair(start: &str, end: &str) -> (String, String) {
    (start.to_string(), end.to_string())
}

#[test]
fn lock_lifecycle_rejects_double_acquire() {
    let conn = open();
    lock(&conn, "repo:octocat/hello", NOW).unwrap();
    assert!(matches!(
        lock(&conn, "repo:octocat/hello", NOW),
        Err(Error::SyncInProgress(_))
    ));
    unlock(&conn, "repo:octocat/hello");
    lock(&conn, "repo:octocat/hello", NOW).unwrap();
}

#[test]
fn ranges_merge_overlapping_and_adjacent() {
    let conn = open();
    let entity = "repo:octocat/hello";

    // Recent window, then backfill older, then fill the middle hole.
    record(&conn, entity, "2026-06-01", "2026-06-30", 10);
    record(&conn, entity, "2026-01-01", "2026-03-31", 20);
    record(&conn, entity, "2026-04-01", "2026-05-31", 5);

    let (start, end) = extent(&conn, entity);
    assert_eq!(
        coverage_extent(start, end, yesterday()).unwrap().unwrap(),
        pair("2026-01-01", "2026-06-30")
    );
    let row_count: i64 = conn
        .query_row(
            "SELECT COUNT(*) FROM synced_ranges WHERE entity_key = ?1",
            [entity],
            |row| row.get(0),
        )
        .unwrap();
    assert_eq!(row_count, 1, "all three ranges collapse into one");
    let total: i64 = conn
        .query_row(
            "SELECT item_count FROM synced_ranges WHERE entity_key = ?1",
            [entity],
            |row| row.get(0),
        )
        .unwrap();
    assert_eq!(total, 35);
}

#[test]
fn gap_detection_finds_holes_and_trailing_gap() {
    let conn = open();
    let entity = "repo:octocat/hello";

    assert!(gaps(&ordered(&conn, entity), "2026-07-01", yesterday()).unwrap().is_empty());

    record(&conn, entity, "2026-01-01", "2026-01-31", 1);
    record(&conn, entity, "2026-03-01", "2026-03-31", 1);

    let holes = gaps(&ordered(&conn, entity), "2026-04-15", yesterday()).unwrap();
    assert_eq!(
        holes,
        vec![
            pair("2026-02-01", "2026-02-28"),
            pair("2026-04-01", "2026-04-15"),
        ]
    );
}

#[test]
fn cursor_only_moves_forward() {
    let conn = open();
    for text in ["2026-06-01T00:00:00Z", "2026-01-01T00:00:00Z"] {
        execute(&conn, &advance_cursor("repo", "octocat/hello", Some(text), NOW)).unwrap();
    }
    assert_eq!(
        cursor(&conn, "repo", "octocat/hello").as_deref(),
        Some("2026-06-01T00:00:00Z")
    );
}

#[test]
fn a_missing_cursor_keeps_the_stored_one() {
    let conn = open();
    assert_eq!(cursor(&conn, "repo", "octocat/hello"), None);
    execute(&conn, &advance_cursor("repo", "octocat/hello", Some("2026-06-01T00:00:00Z"), NOW))
        .unwrap();
    execute(&conn, &advance_cursor("repo", "octocat/hello", None, NOW)).unwrap();
    assert_eq!(
        cursor(&conn, "repo", "octocat/hello").as_deref(),
        Some("2026-06-01T00:00:00Z")
    );
}

#[test]
fn stale_locks_are_taken_over() {
    let conn = open();
    lock(&conn, "repo:octocat/hello", "2026-08-16T12:00:00+00:00").unwrap();
    // Much later, the lock is a leftover of a crash.
    lock(&conn, "repo:octocat/hello", "2026-08-18T12:00:00+00:00").unwrap();
    let started: String = conn
        .query_row("SELECT started_at FROM sync_locks", [], |row| row.get(0))
        .unwrap();
    assert_eq!(started, "2026-08-18T12:00:00+00:00");
}

#[test]
fn recorded_ranges_end_at_the_last_complete_day() {
    let conn = open();
    let entity = "repo:octocat/hello";
    let batch = record_window(
        entity,
        date(2026, 8, 1),
        date(2026, 8, 20),
        3,
        date(2026, 8, 15),
        &vec![],
        NOW,
    );
    run(&conn, batch).unwrap();
    assert_eq!(ordered(&conn, entity), vec![pair("2026-08-01", "2026-08-15")]);

    // A stored claim on the running day is read as if it ended before it.
    let (start, end) = (Some("2026-08-01".to_string()), Some("2026-08-20".to_string()));
    assert_eq!(
        coverage_extent(start, end, date(2026, 8, 15)).unwrap(),
        Some(pair("2026-08-01", "2026-08-15"))
    );
    let holes = gaps(
        &vec![pair("2026-08-01", "2026-08-20")],
        "2026-08-18",
        date(2026, 8, 15),
    )
    .unwrap();
    assert_eq!(holes, vec![pair("2026-08-16", "2026-08-18")], "the trailing days resurface");
}

#[test]
fn a_stored_claim_on_the_running_day_is_not_believed() {
    let conn = open();
    let entity = "repo:octocat/hello";
    conn.execute(
        "INSERT INTO synced_ranges (entity_key, start_date, end_date, synced_at, item_count)
         VALUES (?1, '2026-08-01', '2026-08-16', ?2, 4)",
        [entity, NOW],
    )
    .unwrap();
    let (start, end) = extent(&conn, entity);
    assert_eq!(
        coverage_extent(start, end, yesterday()).unwrap(),
        Some(pair("2026-08-01", "2026-08-15"))
    );
    assert_eq!(
        gaps(&ordered(&conn, entity), "2026-08-16", yesterday()).unwrap(),
        vec![pair("2026-08-16", "2026-08-16")]
    );

    // A range that is recorded up to the running day ends before it, and cuts
    // the stored claim back.
    record(&conn, entity, "2026-07-20", "2026-08-16", 2);
    assert_eq!(ordered(&conn, entity), vec![pair("2026-07-20", "2026-08-15")]);

    assert_eq!(coverage_extent(None, None, yesterday()).unwrap(), None);
    let running = Some("2026-08-16".to_string());
    assert_eq!(coverage_extent(running.clone(), running, yesterday()).unwrap(), None);
}

#[test]
fn coverage_as_of_an_instant_ends_with_the_local_day_before() {
    // 01:00 UTC on the 17th is still the 16th in Los Angeles.
    let evening = Instant::parse("2026-08-17T01:00:00Z").unwrap();
    let pacific = Some("America/Los_Angeles");
    let conn = open();
    let entity = "repo:octocat/hello";
    let recorded = |zone: Option<&str>| {
        record_range_as_of(entity, "2026-08-01", "2026-08-20", 3, zone, &evening, &vec![], NOW)
    };
    run(&conn, recorded(pacific)).unwrap();
    assert_eq!(ordered(&conn, entity), vec![pair("2026-08-01", "2026-08-15")]);

    let claim = vec![pair("2026-08-01", "2026-08-20")];
    let ends = || (Some("2026-08-01".to_string()), Some("2026-08-20".to_string()));
    assert_eq!(
        gaps_as_of(&claim, "2026-08-17", pacific, &evening).unwrap(),
        vec![pair("2026-08-16", "2026-08-17")]
    );
    assert_eq!(
        gaps_as_of(&claim, "2026-08-17", Some("UTC"), &evening).unwrap(),
        vec![pair("2026-08-17", "2026-08-17")]
    );
    let (start, end) = ends();
    assert_eq!(
        coverage_extent_as_of(start, end, pacific, &evening).unwrap(),
        Some(pair("2026-08-01", "2026-08-15"))
    );

    let nowhere = Some("Nowhere/Else");
    let refused = recorded(nowhere);
    assert!(refused.statements.is_empty());
    assert!(matches!(refused.failure, Some(Error::Config(_))));
    assert!(matches!(
        gaps_as_of(&claim, "2026-08-17", nowhere, &evening),
        Err(Error::Config(_))
    ));
    let (start, end) = ends();
    assert!(matches!(
        coverage_extent_as_of(start, end, nowhere, &evening),
        Err(Error::Config(_))
    ));
}

#[test]
fn recording_keeps_the_ranges_apart_and_their_items_summed() {
    let conn = open();
    let entity = "repo:octocat/hello";
    record(&conn, entity, "2026-01-01", "2026-01-10", 1);
    record(&conn, entity, "2026-03-01", "2026-03-10", 2);
    record(&conn, entity, "2026-05-01", "2026-05-10", 4);
    record(&conn, "repo:octocat/other", "2026-02-01", "2026-02-10", 100);
    // Overlaps the first, ends the day before the second, leaves the third.
    record(&conn, entity, "2026-01-05", "2026-02-28", 8);
    assert_eq!(
        ordered(&conn, entity),
        vec![pair("2026-01-01", "2026-03-10"), pair("2026-05-01", "2026-05-10")]
    );
    let total: i64 = conn
        .query_row(
            "SELECT SUM(item_count) FROM synced_ranges WHERE entity_key = ?1",
            [entity],
            |row| row.get(0),
        )
        .unwrap();
    assert_eq!(total, 15);
    assert_eq!(
        ordered(&conn, "repo:octocat/other"),
        vec![pair("2026-02-01", "2026-02-10")]
    );
}

#[test]
fn a_window_that_ends_before_it_starts_is_stored_as_it_stands() {
    let conn = open();
    let entity = "repo:octocat/hello";
    record(&conn, entity, "2026-03-10", "2026-03-01", 2);
    assert_eq!(ordered(&conn, entity), vec![pair("2026-03-10", "2026-03-01")]);
    assert_eq!(
        gaps(&ordered(&conn, entity), "2026-03-05", yesterday()).unwrap(),
        vec![pair("2026-03-02", "2026-03-05")]
    );
    let (start, end) = extent(&conn, entity);
    assert_eq!(
        coverage_extent(start, end, yesterday()).unwrap(),
        Some(pair("2026-03-10", "2026-03-01"))
    );
}

#[test]
fn a_range_that_claims_only_running_days_is_not_recorded() {
    let conn = open();
    let entity = "repo:octocat/hello";
    let batch = record_window(
        entity,
        date(2026, 8, 16),
        date(2026, 8, 16),
        0,
        date(2026, 8, 15),
        &vec![],
        NOW,
    );
    run(&conn, batch).unwrap();
    assert!(ordered(&conn, entity).is_empty());
}

#[test]
fn unreadable_ranges_are_refused() {
    let entity = "repo:octocat/hello";
    let batch = record_range(entity, "soon", "2026-01-01", 1, yesterday(), &vec![], NOW);
    assert!(batch.statements.is_empty());
    assert!(matches!(batch.failure, Some(Error::InvalidArgument(_))));
    assert!(matches!(
        gaps(&vec![pair("2026-01-01", "later")], "2026-02-01", yesterday()),
        Err(Error::InvalidArgument(_))
    ));
}

#[test]
fn jobs_keep_their_outcome() {
    let conn = open();
    let entity = "repo:octocat/hello";
    execute(&conn, &start_job(entity, NOW)).unwrap();
    let failed = vec![("octocat/hello#7".to_string(), "bad \"timestamp\"".to_string())];
    execute(&conn, &complete_job(entity, 5, 1, &failed, NOW).unwrap()).unwrap();
    let (status, synced, skipped, items): (String, i64, i64, String) = conn
        .query_row(
            "SELECT status, synced, skipped, failed_items FROM sync_jobs",
            [],
            |row| Ok((row.get(0)?, row.get(1)?, row.get(2)?, row.get(3)?)),
        )
        .unwrap();
    assert_eq!((status.as_str(), synced, skipped), ("completed", 5, 1));
    assert_eq!(items, r#"[["octocat/hello#7","bad \"timestamp\""]]"#);

    execute(&conn, &start_job(entity, NOW)).unwrap();
    execute(&conn, &complete_job(entity, 2, 0, &vec![], NOW).unwrap()).unwrap();
    let items: Option<String> = conn
        .query_row("SELECT failed_items FROM sync_jobs", [], |row| row.get(0))
        .unwrap();
    assert_eq!(items, None, "nothing failed");

    execute(&conn, &fail_job(entity, "boom", NOW)).unwrap();
    let (status, error): (String, String) = conn
        .query_row("SELECT status, error FROM sync_jobs", [], |row| {
            Ok((row.get(0)?, row.get(1)?))
        })
        .unwrap();
    assert_eq!((status.as_str(), error.as_str()), ("failed", "boom"));
}

#[test]
fn progress_is_written_to_the_lock() {
    let conn = open();
    let entity = "repo:octocat/hello";
    lock(&conn, entity, NOW).unwrap();
    execute(&conn, &update_lock_progress(entity, 4, "octocat/hello#4", 3, 0, 1)).unwrap();
    let row: (i64, String, i64, i64) = conn
        .query_row(
            "SELECT current_item, current_item_id, synced, failed FROM sync_locks",
            [],
            |row| Ok((row.get(0)?, row.get(1)?, row.get(2)?, row.get(3)?)),
        )
        .unwrap();
    assert_eq!(row, (4, "octocat/hello#4".to_string(), 3, 1));
}
