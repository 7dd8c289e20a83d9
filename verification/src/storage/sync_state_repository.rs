//! Sync-state persistence: locks, job records, synced ranges, cursors.

use vstd::prelude::*;
use crate::calendar::{date_key, in_calendar, parsed_date, Date, MIN_DAY};
use crate::clock::{
    has_local_date, local_day, nanos_between, parsed_instant, utc_day, zone_known, Instant, Moment,
};
use crate::error::{is_config, is_invalid, Error};
use crate::sql::{
    commands, push_statement, refuses_after, single, succeeds_with, text_cell, Batch, Cell, Command,
    Statement,
};
use crate::storage::time_dimension::{last_complete_day_as_of, local_date_key, zone_name};
use crate::storage::upsert::{
    always_leaves, cell_less, field, fields, key_of, later_cell, law_later_is_below_neither,
    law_upserts_touch_one_row, lemma_reaches_its_column, row_at, rows_after, sets, upsert,
    upsert_sql, Change, Column, Field,
};
use crate::text::{copy, join4, opt_str, opt_text};

verus! {

/// Locks staler than this are considered crashed and auto-released.
pub const STALE_LOCK_MINUTES: u32 = 30;

// ---------------------------------------------------------------- locks

/// The statement that reads the lock of an entity.
pub const READ_LOCK_SQL: &'static str = "SELECT started_at FROM sync_locks WHERE entity_key = ?1";

/// The statement that removes the lock of an entity.
pub const DELETE_LOCK_SQL: &'static str = "DELETE FROM sync_locks WHERE entity_key = ?1";

/// The statement that takes the lock of an entity.
pub const INSERT_LOCK_SQL: &'static str = "INSERT INTO sync_locks (entity_key, started_at) VALUES (?1, ?2)";

/// A lock is live while fewer than the stale minutes have passed since it was
/// taken. A start that cannot be read counts as taken just now.
pub open spec fn is_live(started_at: Seq<char>, now: Moment) -> bool {
    match parsed_instant(started_at) {
        Ok(parts) => nanos_between(now, Moment { seconds: parts.0, nanos: parts.1 })
            < STALE_LOCK_MINUTES * 60 * 1_000_000_000,
        Err(_) => true,
    }
}

/// The command that removes a lock.
pub open spec fn delete_lock(entity_key: Seq<char>) -> Command {
    Command { sql: DELETE_LOCK_SQL@, params: seq![Cell::Text(entity_key)] }
}

/// The command that takes a lock.
pub open spec fn insert_lock(entity_key: Seq<char>, started_at: Seq<char>) -> Command {
    Command { sql: INSERT_LOCK_SQL@, params: seq![Cell::Text(entity_key), Cell::Text(started_at)] }
}

/// Acquire the sync lock for an entity, given the start of the lock that is
/// there. Fails fast if that lock is live; replaces a stale one.
pub fn acquire_lock(
    entity_key: &str,
    existing: Option<&str>,
    now: &Instant,
    now_text: &str,
) -> (outcome: Result<Vec<Statement>, Error>)
    ensures
        match opt_str(existing) {
            None => outcome is Ok && commands(outcome->Ok_0@) == seq![
                insert_lock(entity_key@, now_text@),
            ],
            Some(started_at) => if is_live(started_at, now@) {
                outcome is Err && (outcome->Err_0 matches Error::SyncInProgress(entity) && entity@
                    == entity_key@)
            } else {
                outcome is Ok && commands(outcome->Ok_0@) == seq![
                    delete_lock(entity_key@),
                    insert_lock(entity_key@, now_text@),
                ]
            },
        },
{
    let take = Statement::new(INSERT_LOCK_SQL).text(entity_key).text(now_text);
    assert(take@ =~= insert_lock(entity_key@, now_text@));
    match existing {
        None => Ok(single(take)),
        Some(started_at) => {
            let live = match Instant::parse(started_at) {
                Ok(started) => now.is_within(&started, STALE_LOCK_MINUTES * 60),
                Err(_) => true,
            };
            if live {
                return Err(Error::SyncInProgress(copy(entity_key)));
            }
            let mut statements = release_lock(entity_key);
            push_statement(&mut statements, take);
            assert(commands(statements@) =~= seq![
                delete_lock(entity_key@),
                insert_lock(entity_key@, now_text@),
            ]);
            Ok(statements)
        },
    }
}

/// Release the lock (idempotent).
pub fn release_lock(entity_key: &str) -> (statements: Vec<Statement>)
    ensures
        commands(statements@) == seq![delete_lock(entity_key@)],
{
    single(Statement::new(DELETE_LOCK_SQL).text(entity_key))
}

/// The statement that updates the counters of a lock.
pub const LOCK_PROGRESS_SQL: &'static str = "UPDATE sync_locks SET current_item = ?2, current_item_id = ?3,
             synced = ?4, skipped = ?5, failed = ?6
         WHERE entity_key = ?1";

/// Update live progress counters on the lock row.
pub fn update_lock_progress(
    entity_key: &str,
    current_item: i64,
    current_item_id: &str,
    synced: i64,
    skipped: i64,
    failed: i64,
) -> (statement: Statement)
    ensures
        statement@ == (Command {
            sql: LOCK_PROGRESS_SQL@,
            params: seq![
                Cell::Text(entity_key@),
                Cell::Integer(current_item as int),
                Cell::Text(current_item_id@),
                Cell::Integer(synced as int),
                Cell::Integer(skipped as int),
                Cell::Integer(failed as int),
            ],
        }),
{
    Statement::new(LOCK_PROGRESS_SQL)
        .text(entity_key)
        .integer(current_item)
        .text(current_item_id)
        .integer(synced)
        .integer(skipped)
        .integer(failed)
}

// ---------------------------------------------------------------- jobs

/// The statement that starts a job record.
pub const START_JOB_SQL: &'static str = "INSERT INTO sync_jobs (entity_key, status, started_at)
         VALUES (?1, 'running', ?2)
         ON CONFLICT (entity_key) DO UPDATE SET
             status = 'running', started_at = excluded.started_at,
             completed_at = NULL, synced = 0, skipped = 0,
             failed_items = NULL, error = NULL";

/// Start (or restart) the durable job record for an entity.
pub fn start_job(entity_key: &str, now_text: &str) -> (statement: Statement)
    ensures
        statement@ == (Command {
            sql: START_JOB_SQL@,
            params: seq![Cell::Text(entity_key@), Cell::Text(now_text@)],
        }),
{
    Statement::new(START_JOB_SQL).text(entity_key).text(now_text)
}

/// The views of a list of failed items and their messages.
pub open spec fn failures(items: Seq<(String, String)>) -> Seq<(Seq<char>, Seq<char>)> {
    Seq::new(items.len(), |i: int| (items[i].0@, items[i].1@))
}

/// The JSON text that `serde_json::to_string` writes for a list of pairs of
/// texts.
pub uninterp spec fn pairs_json(items: Seq<(Seq<char>, Seq<char>)>) -> Seq<char>;

/// Calls `serde_json::to_string` on a list of pairs of texts. It can fail only
/// on a map with other keys than texts or where a value's own serialization
/// does, and here is neither; the text depends on the list alone.
#[verifier::external_body]
fn serde_pairs(items: &Vec<(String, String)>) -> (outcome: Result<String, String>)
    ensures
        outcome is Ok,
        outcome->Ok_0@ == pairs_json(failures(items@)),
{
    serde_json::to_string(items).map_err(|error| error.to_string())
}

/// The statement that completes a job record.
pub const COMPLETE_JOB_SQL: &'static str = "UPDATE sync_jobs SET status = 'completed', completed_at = ?2,
             synced = ?3, skipped = ?4, failed_items = ?5
         WHERE entity_key = ?1";

/// The command that completes a job record.
pub open spec fn completed_job(
    entity_key: Seq<char>,
    now_text: Seq<char>,
    synced: int,
    skipped: int,
    failed_json: Option<Seq<char>>,
) -> Command {
    Command {
        sql: COMPLETE_JOB_SQL@,
        params: seq![
            Cell::Text(entity_key),
            Cell::Text(now_text),
            Cell::Integer(synced),
            Cell::Integer(skipped),
            text_cell(failed_json),
        ],
    }
}

/// The statement that completes a job, with its failed items as JSON where
/// there are any.
pub fn completion(
    entity_key: &str,
    synced: i64,
    skipped: i64,
    failed_json: Option<&str>,
    now_text: &str,
) -> (statement: Statement)
    ensures
        statement@ == completed_job(
            entity_key@,
            now_text@,
            synced as int,
            skipped as int,
            opt_str(failed_json),
        ),
{
    Statement::new(COMPLETE_JOB_SQL)
        .text(entity_key)
        .text(now_text)
        .integer(synced)
        .integer(skipped)
        .opt(failed_json)
}

/// Mark the job completed with final counters.
pub fn complete_job(
    entity_key: &str,
    synced: i64,
    skipped: i64,
    failed_items: &Vec<(String, String)>,
    now_text: &str,
) -> (outcome: Result<Statement, Error>)
    ensures
        outcome matches Ok(statement) && statement@ == completed_job(
            entity_key@,
            now_text@,
            synced as int,
            skipped as int,
            if failed_items@.len() == 0 {
                None
            } else {
                Some(pairs_json(failures(failed_items@)))
            },
        ),
{
    if failed_items.len() == 0 {
        return Ok(completion(entity_key, synced, skipped, None, now_text));
    }
    match serde_pairs(failed_items) {
        Ok(json) => Ok(completion(entity_key, synced, skipped, Some(json.as_str()), now_text)),
        Err(message) => Err(Error::Json(message)),
    }
}

/// The statement that fails a job record.
pub const FAIL_JOB_SQL: &'static str = "UPDATE sync_jobs SET status = 'failed', completed_at = ?2, error = ?3
         WHERE entity_key = ?1";

/// Mark the job failed with an error message.
pub fn fail_job(entity_key: &str, error: &str, now_text: &str) -> (statement: Statement)
    ensures
        statement@ == (Command {
            sql: FAIL_JOB_SQL@,
            params: seq![Cell::Text(entity_key@), Cell::Text(now_text@), Cell::Text(error@)],
        }),
{
    Statement::new(FAIL_JOB_SQL).text(entity_key).text(now_text).text(error)
}

// ---------------------------------------------------------------- ranges

/// A stored coverage range, as its row holds it.
#[derive(Debug, PartialEq, Eq)]
pub struct RangeRow {
    pub start_date: String,
    pub end_date: String,
    pub item_count: i64,
}

/// The message that refuses a date.
pub open spec fn bad_date(text: Seq<char>, reason: Seq<char>) -> Seq<char> {
    "bad date '"@ + text + "': "@ + reason
}

/// What a date text says: the number of its day, or the message that refuses
/// it.
pub open spec fn date_of(text: Seq<char>) -> Result<int, Seq<char>> {
    match parsed_date(text) {
        Ok(day) => Ok(day),
        Err(reason) => Err(bad_date(text, reason)),
    }
}

/// Read a date of a coverage range.
pub fn parse_date(text: &str) -> (outcome: Result<Date, Error>)
    ensures
        match date_of(text@) {
            Ok(day) => outcome is Ok && outcome->Ok_0@ == day,
            Err(message) => outcome is Err && is_invalid(outcome->Err_0, message),
        },
        forall|n: int|
            in_calendar(n) && text@ == #[trigger] date_key(n) ==> outcome is Ok && outcome->Ok_0@ == n,
{
    match Date::parse(text) {
        Ok(date) => Ok(date),
        Err(reason) => Err(Error::InvalidArgument(join4("bad date '", text, "': ", &reason))),
    }
}

/// The statement that finds the ranges that overlap or touch a window.
pub const OVERLAPPING_SQL: &'static str = "SELECT start_date, end_date, item_count FROM synced_ranges
         WHERE entity_key = ?1
           AND start_date <= ?2
           AND end_date >= ?3";

/// The command that finds the ranges that overlap a window or lie within one
/// day of it.
pub open spec fn find_overlapping(entity_key: Seq<char>, start: int, end: int) -> Command {
    Command {
        sql: OVERLAPPING_SQL@,
        params: seq![
            Cell::Text(entity_key),
            Cell::Text(local_date_key(end + 1)),
            Cell::Text(local_date_key(start - 1)),
        ],
    }
}

/// The key of the day `days` away, which may lie one day outside the calendar.
fn neighbour_key(date: &Date, days: i64) -> (key: String)
    requires
        days == 1 || days == -1,
    ensures
        key@ == local_date_key(date@ + days),
{
    proof {
        use_type_invariant(date);
    }
    match date.checked_plus_days(days) {
        Some(neighbour) => {
            proof {
                use_type_invariant(&neighbour);
            }
            neighbour.key()
        },
        None => if days > 0 {
            copy("+262143-01-01")
        } else {
            copy("-262144-12-31")
        },
    }
}

/// The query for the stored ranges that a new window merges with.
pub fn overlapping_ranges(entity_key: &str, start: &Date, end: &Date) -> (statement: Statement)
    ensures
        statement@ == find_overlapping(entity_key@, start@, end@),
{
    Statement::new(OVERLAPPING_SQL)
        .text(entity_key)
        .text(&neighbour_key(end, 1))
        .text(&neighbour_key(start, -1))
}

/// The smaller of two days.
pub open spec fn min_day(left: int, right: int) -> int {
    if left <= right {
        left
    } else {
        right
    }
}

/// The larger of two days.
pub open spec fn max_day(left: int, right: int) -> int {
    if left >= right {
        left
    } else {
        right
    }
}

/// The number of an optional date.
pub open spec fn opt_day(date: Option<Date>) -> Option<int> {
    match date {
        Some(date) => Some(date@),
        None => None,
    }
}

/// Both dates of a row, or the message that refuses the first unreadable one.
pub open spec fn row_days(row: RangeRow) -> Result<(int, int), Seq<char>> {
    match date_of(row.start_date@) {
        Ok(start) => match date_of(row.end_date@) {
            Ok(end) => Ok((start, end)),
            Err(message) => Err(message),
        },
        Err(message) => Err(message),
    }
}

/// The first `n` rows are readable.
pub open spec fn readable(rows: Seq<RangeRow>, n: int) -> bool {
    forall|i: int| 0 <= i < n ==> (#[trigger] row_days(rows[i])) is Ok
}

/// The earliest start of a window and the first `n` rows.
pub open spec fn merged_start(rows: Seq<RangeRow>, n: int, start: int) -> int
    decreases n,
{
    if n <= 0 {
        start
    } else {
        min_day(merged_start(rows, n - 1, start), row_days(rows[n - 1])->Ok_0.0)
    }
}

/// The latest end of a window and the first `n` rows, each capped at the limit.
pub open spec fn merged_end(rows: Seq<RangeRow>, n: int, end: int, limit: int) -> int
    decreases n,
{
    if n <= 0 {
        min_day(end, limit)
    } else {
        max_day(
            merged_end(rows, n - 1, end, limit),
            min_day(row_days(rows[n - 1])->Ok_0.1, limit),
        )
    }
}

/// The items of a window and of the first `n` rows.
pub open spec fn merged_count(rows: Seq<RangeRow>, n: int, count: int) -> int
    decreases n,
{
    if n <= 0 {
        count
    } else {
        merged_count(rows, n - 1, count) + rows[n - 1].item_count
    }
}

/// The running item count stays within its type.
pub open spec fn counts_fit(rows: Seq<RangeRow>, count: int) -> bool {
    forall|n: int|
        0 <= n <= rows.len() ==> i64::MIN <= #[trigger] merged_count(rows, n, count) <= i64::MAX
}

/// The statement that removes a stored range.
pub const DELETE_RANGE_SQL: &'static str = "DELETE FROM synced_ranges WHERE entity_key = ?1 AND start_date = ?2 AND end_date = ?3";

/// The statement that stores a range.
pub const INSERT_RANGE_SQL: &'static str = "INSERT INTO synced_ranges (entity_key, start_date, end_date, synced_at, item_count)
         VALUES (?1, ?2, ?3, ?4, ?5)";

/// The commands that remove the first `n` rows.
pub open spec fn delete_ranges(entity_key: Seq<char>, rows: Seq<RangeRow>, n: int) -> Seq<Command>
    decreases n,
{
    if n <= 0 {
        Seq::empty()
    } else {
        delete_ranges(entity_key, rows, n - 1).push(
            Command {
                sql: DELETE_RANGE_SQL@,
                params: seq![
                    Cell::Text(entity_key),
                    Cell::Text(rows[n - 1].start_date@),
                    Cell::Text(rows[n - 1].end_date@),
                ],
            },
        )
    }
}

/// The command that stores a range.
pub open spec fn insert_range(
    entity_key: Seq<char>,
    start: int,
    end: int,
    synced_at: Seq<char>,
    count: int,
) -> Command {
    Command {
        sql: INSERT_RANGE_SQL@,
        params: seq![
            Cell::Text(entity_key),
            Cell::Text(date_key(start)),
            Cell::Text(date_key(end)),
            Cell::Text(synced_at),
            Cell::Integer(count),
        ],
    }
}

/// The limit takes every day of a window away.
pub open spec fn is_cut(start: int, end: int, limit: int) -> bool {
    limit < start <= end
}

/// What recording a window does: the stored ranges it merges with go away one
/// by one, up to an unreadable one, and the merged range is stored. A window
/// that lies behind the limit changes nothing.
pub open spec fn records_range(
    batch: Batch,
    entity_key: Seq<char>,
    start: int,
    end: int,
    limit: int,
    count: int,
    rows: Seq<RangeRow>,
    synced_at: Seq<char>,
) -> bool {
    if is_cut(start, end, limit) {
        succeeds_with(batch, Seq::empty())
    } else if readable(rows, rows.len() as int) {
        succeeds_with(
            batch,
            delete_ranges(entity_key, rows, rows.len() as int).push(
                insert_range(
                    entity_key,
                    merged_start(rows, rows.len() as int, start),
                    merged_end(rows, rows.len() as int, end, limit),
                    synced_at,
                    merged_count(rows, rows.len() as int, count),
                ),
            ),
        )
    } else {
        exists|n: int|
            {
                &&& 0 <= n < rows.len()
                &&& readable(rows, n)
                &&& row_days(rows[n]) matches Err(message) && refuses_after(
                    batch,
                    #[trigger] delete_ranges(entity_key, rows, n),
                    message,
                )
            }
    }
}

/// Record a freshly synced window whose coverage claim ends, at the latest, on
/// the last complete day, merging it with the overlapping or adjacent (within
/// one day) existing ranges that were read. Stored ranges that claim more are
/// cut back when they are merged. A window that lies behind the last complete
/// day claims nothing; one that ends before it starts is stored as it stands.
pub fn record_window(
    entity_key: &str,
    start: Date,
    end: Date,
    item_count: i64,
    last_complete: Date,
    rows: &Vec<RangeRow>,
    synced_at: &str,
) -> (batch: Batch)
    requires
        counts_fit(rows@, item_count as int),
    ensures
        records_range(
            batch,
            entity_key@,
            start@,
            end@,
            last_complete@,
            item_count as int,
            rows@,
            synced_at@,
        ),
{
    let mut statements: Vec<Statement> = Vec::new();
    let mut last = end.earlier(&last_complete);
    if last_complete.is_before(&start) && !end.is_before(&start) {
        assert(commands(statements@) =~= Seq::empty());
        return Batch { statements, failure: None };
    }
    let mut first = start;
    let mut count: i64 = item_count;
    let mut i: usize = 0;
    assert(commands(statements@) =~= delete_ranges(entity_key@, rows@, 0));
    assert(merged_count(rows@, 0, item_count as int) == item_count);
    while i < rows.len()
        invariant
            i <= rows.len(),
            counts_fit(rows@, item_count as int),
            readable(rows@, i as int),
            first@ == merged_start(rows@, i as int, start@),
            last@ == merged_end(rows@, i as int, end@, last_complete@),
            count == merged_count(rows@, i as int, item_count as int),
            commands(statements@) == delete_ranges(entity_key@, rows@, i as int),
            !is_cut(start@, end@, last_complete@),
        decreases rows.len() - i,
    {
        let row_start = match parse_date(rows[i].start_date.as_str()) {
            Ok(date) => date,
            Err(error) => {
                assert(row_days(rows@[i as int]) is Err);
                assert(!readable(rows@, rows@.len() as int));
                return Batch { statements, failure: Some(error) };
            },
        };
        let row_end = match parse_date(rows[i].end_date.as_str()) {
            Ok(date) => date,
            Err(error) => {
                assert(row_days(rows@[i as int]) is Err);
                assert(!readable(rows@, rows@.len() as int));
                return Batch { statements, failure: Some(error) };
            },
        };
        assert(row_days(rows@[i as int]) == Ok::<(int, int), Seq<char>>((row_start@, row_end@)));
        first = first.earlier(&row_start);
        last = last.later(&row_end.earlier(&last_complete));
        assert(merged_count(rows@, i + 1, item_count as int) == count + rows@[i as int].item_count);
        count = count + rows[i].item_count;
        let gone = Statement::new(DELETE_RANGE_SQL)
            .text(entity_key)
            .text(rows[i].start_date.as_str())
            .text(rows[i].end_date.as_str());
        assert(gone@ =~= delete_ranges(entity_key@, rows@, i + 1).last());
        push_statement(&mut statements, gone);
        i = i + 1;
    }
    let stored = Statement::new(INSERT_RANGE_SQL)
        .text(entity_key)
        .text(&first.key())
        .text(&last.key())
        .text(synced_at)
        .integer(count);
    assert(stored@ =~= insert_range(
        entity_key@,
        first@,
        last@,
        synced_at@,
        count as int,
    ));
    push_statement(&mut statements, stored);
    Batch { statements, failure: None }
}

/// What recording a window does whose dates are texts: it is refused where one
/// of them cannot be read.
pub open spec fn records_dates(
    batch: Batch,
    entity_key: Seq<char>,
    start_date: Seq<char>,
    end_date: Seq<char>,
    limit: int,
    count: int,
    rows: Seq<RangeRow>,
    synced_at: Seq<char>,
) -> bool {
    match (date_of(start_date), date_of(end_date)) {
        (Ok(start), Ok(end)) => records_range(
            batch,
            entity_key,
            start,
            end,
            limit,
            count,
            rows,
            synced_at,
        ),
        (Ok(_), Err(message)) => refuses_after(batch, Seq::empty(), message),
        (Err(message), _) => refuses_after(batch, Seq::empty(), message),
    }
}

/// Record a freshly synced `[start, end]` date range, merging with the
/// overlapping or adjacent (within one day) existing ranges that were read.
/// Only days up to the last complete one are claimed.
pub fn record_range(
    entity_key: &str,
    start_date: &str,
    end_date: &str,
    item_count: i64,
    last_complete: Date,
    rows: &Vec<RangeRow>,
    synced_at: &str,
) -> (batch: Batch)
    requires
        counts_fit(rows@, item_count as int),
    ensures
        records_dates(
            batch,
            entity_key@,
            start_date@,
            end_date@,
            last_complete@,
            item_count as int,
            rows@,
            synced_at@,
        ),
{
    let none: Vec<Statement> = Vec::new();
    assert(commands(none@) =~= Seq::empty());
    let start = match parse_date(start_date) {
        Ok(date) => date,
        Err(error) => return Batch { statements: none, failure: Some(error) },
    };
    let end = match parse_date(end_date) {
        Ok(date) => date,
        Err(error) => return Batch { statements: none, failure: Some(error) },
    };
    record_window(entity_key, start, end, item_count, last_complete, rows, synced_at)
}

/// Record a freshly synced `[start, end]` date range as of an instant: only
/// days that are complete by then in the configured timezone are claimed.
pub fn record_range_as_of(
    entity_key: &str,
    start_date: &str,
    end_date: &str,
    item_count: i64,
    timezone: Option<&str>,
    instant: &Instant,
    rows: &Vec<RangeRow>,
    synced_at: &str,
) -> (batch: Batch)
    requires
        counts_fit(rows@, item_count as int),
        has_local_date(instant@),
        MIN_DAY + 1 < utc_day(instant@.seconds),
    ensures
        zone_known(zone_name(opt_str(timezone))) ==> records_dates(
            batch,
            entity_key@,
            start_date@,
            end_date@,
            local_day(zone_name(opt_str(timezone)), instant@) - 1,
            item_count as int,
            rows@,
            synced_at@,
        ),
        !zone_known(zone_name(opt_str(timezone))) ==> batch.statements@.len() == 0
            && batch.failure is Some && is_config(
            batch.failure->Some_0,
            "invalid timezone '"@ + zone_name(opt_str(timezone)) + "'"@,
        ),
{
    match last_complete_day_as_of(timezone, instant) {
        Ok(last_complete) => record_range(
            entity_key,
            start_date,
            end_date,
            item_count,
            last_complete,
            rows,
            synced_at,
        ),
        Err(error) => Batch { statements: Vec::new(), failure: Some(error) },
    }
}

// ---------------------------------------------------------------- gaps

/// The statement that reads the ranges of an entity in order.
pub const ORDERED_RANGES_SQL: &'static str = "SELECT start_date, end_date FROM synced_ranges
         WHERE entity_key = ?1 ORDER BY start_date";

/// A covered window, as day numbers.
pub ghost struct Window {
    pub start: int,
    pub end: int,
}

/// The window of a readable row.
pub open spec fn row_window(row: (String, String)) -> Result<Window, Seq<char>> {
    match date_of(row.0@) {
        Ok(start) => match date_of(row.1@) {
            Ok(end) => Ok(Window { start, end }),
            Err(message) => Err(message),
        },
        Err(message) => Err(message),
    }
}

/// The end of coverage after the first `n` windows.
pub open spec fn covered_until(windows: Seq<Window>, n: int) -> int
    decreases n,
{
    if n <= 1 {
        windows[0].end
    } else {
        max_day(covered_until(windows, n - 1), windows[n - 1].end)
    }
}

/// The holes in front of the first `n` windows: each hole begins behind all
/// coverage so far and ends in front of the next window.
pub open spec fn holes(windows: Seq<Window>, n: int) -> Seq<Window>
    decreases n,
{
    if n <= 1 {
        Seq::empty()
    } else {
        let before = covered_until(windows, n - 1);
        let next = windows[n - 1];
        if next.start > before + 1 {
            holes(windows, n - 1).push(Window { start: before + 1, end: next.start - 1 })
        } else {
            holes(windows, n - 1)
        }
    }
}

/// The uncovered windows up to a target day.
pub open spec fn gaps_until(windows: Seq<Window>, target: int) -> Seq<Window> {
    let n = windows.len() as int;
    if n == 0 {
        Seq::empty()
    } else if target > covered_until(windows, n) {
        holes(windows, n).push(Window { start: covered_until(windows, n) + 1, end: target })
    } else {
        holes(windows, n)
    }
}

/// The texts are the keys of the windows.
pub open spec fn are_window_keys(texts: Seq<(String, String)>, windows: Seq<Window>) -> bool {
    &&& texts.len() == windows.len()
    &&& forall|i: int|
        0 <= i < texts.len() ==> (#[trigger] texts[i]).0@ == date_key(windows[i].start)
            && texts[i].1@ == date_key(windows[i].end)
}

/// The windows of dates.
pub open spec fn windows_of(ranges: Seq<(Date, Date)>) -> Seq<Window> {
    Seq::new(ranges.len(), |i: int| Window { start: ranges[i].0@, end: ranges[i].1@ })
}

/// Uncovered windows between the covered ranges and `target`.
fn find_gaps(ranges: &Vec<(Date, Date)>, target: Date) -> (result: Vec<(String, String)>)
    ensures
        are_window_keys(result@, gaps_until(windows_of(ranges@), target@)),
{
    let mut result: Vec<(String, String)> = Vec::new();
    if ranges.len() == 0 {
        return result;
    }
    let ghost windows = windows_of(ranges@);
    let mut previous_end = ranges[0].1;
    let mut i: usize = 1;
    while i < ranges.len()
        invariant
            1 <= i <= ranges.len(),
            windows == windows_of(ranges@),
            previous_end@ == covered_until(windows, i as int),
            are_window_keys(result@, holes(windows, i as int)),
        decreases ranges.len() - i,
    {
        let start = ranges[i].0;
        let end = ranges[i].1;
        proof {
            use_type_invariant(&start);
            use_type_invariant(&previous_end);
        }
        let ghost before = result@;
        if start.days_since(&previous_end) > 1 {
            let hole = (previous_end.plus_days(1).key(), start.plus_days(-1).key());
            result.push(hole);
            assert(are_window_keys(result@, holes(windows, i + 1))) by {
                assert forall|k: int| 0 <= k < result@.len() implies (#[trigger] result@[k]).0@
                    == date_key(holes(windows, i + 1)[k].start) && result@[k].1@ == date_key(
                    holes(windows, i + 1)[k].end,
                ) by {
                    if k < before.len() {
                        assert(result@[k] == before[k]);
                    }
                }
            }
        }
        previous_end = previous_end.later(&end);
        i = i + 1;
    }
    proof {
        use_type_invariant(&target);
        use_type_invariant(&previous_end);
    }
    let ghost before = result@;
    if previous_end.is_before(&target) {
        let hole = (previous_end.plus_days(1).key(), target.key());
        result.push(hole);
        assert forall|k: int| 0 <= k < result@.len() implies (#[trigger] result@[k]).0@ == date_key(
            gaps_until(windows, target@)[k].start,
        ) && result@[k].1@ == date_key(gaps_until(windows, target@)[k].end) by {
            if k < before.len() {
                assert(result@[k] == before[k]);
            }
        }
    }
    result
}

/// The first `n` rows can be read.
pub open spec fn windows_readable(rows: Seq<(String, String)>, n: int) -> bool {
    forall|i: int| 0 <= i < n ==> (#[trigger] row_window(rows[i])) is Ok
}

/// The window that a row claims, cut back to the limit.
pub open spec fn claimed(row: (String, String), limit: int) -> Window {
    let window = row_window(row)->Ok_0;
    Window { start: window.start, end: min_day(window.end, limit) }
}

/// The windows that the first `n` rows claim. A row that lies behind the limit
/// is left out.
pub open spec fn claims(rows: Seq<(String, String)>, n: int, limit: int) -> Seq<Window>
    decreases n,
{
    if n <= 0 {
        Seq::empty()
    } else if is_cut(row_window(rows[n - 1])->Ok_0.start, row_window(rows[n - 1])->Ok_0.end, limit) {
        claims(rows, n - 1, limit)
    } else {
        claims(rows, n - 1, limit).push(claimed(rows[n - 1], limit))
    }
}

/// What a search for gaps returns: the keys of the uncovered windows, or the
/// refusal of the first date that cannot be read.
pub open spec fn gaps_found(
    outcome: Result<Vec<(String, String)>, Error>,
    rows: Seq<(String, String)>,
    target_date: Seq<char>,
    limit: int,
) -> bool {
    match date_of(target_date) {
        Err(message) => outcome is Err && is_invalid(outcome->Err_0, message),
        Ok(target) => if windows_readable(rows, rows.len() as int) {
            outcome is Ok && are_window_keys(
                outcome->Ok_0@,
                gaps_until(claims(rows, rows.len() as int, limit), target),
            )
        } else {
            exists|n: int|
                {
                    &&& 0 <= n < rows.len()
                    &&& windows_readable(rows, n)
                    &&& row_window(#[trigger] rows[n]) matches Err(message) && outcome is Err
                        && is_invalid(outcome->Err_0, message)
                }
        },
    }
}

/// Uncovered `[start, end]` windows between the stored ranges, in order of
/// their starts, and `target_date`. No stored range is believed beyond the last
/// complete day. No ranges at all give an empty result (the caller picks the
/// initial window).
pub fn gaps(rows: &Vec<(String, String)>, target_date: &str, last_complete: Date) -> (outcome:
    Result<Vec<(String, String)>, Error>)
    ensures
        gaps_found(outcome, rows@, target_date@, last_complete@),
{
    let target = match parse_date(target_date) {
        Ok(date) => date,
        Err(error) => return Err(error),
    };
    let mut ranges: Vec<(Date, Date)> = Vec::new();
    let mut i: usize = 0;
    assert(windows_of(ranges@) =~= claims(rows@, 0, last_complete@));
    while i < rows.len()
        invariant
            i <= rows.len(),
            date_of(target_date@) is Ok,
            windows_readable(rows@, i as int),
            windows_of(ranges@) == claims(rows@, i as int, last_complete@),
        decreases rows.len() - i,
    {
        let start = match parse_date(rows[i].0.as_str()) {
            Ok(date) => date,
            Err(error) => {
                assert(row_window(rows@[i as int]) is Err);
                assert(!windows_readable(rows@, rows@.len() as int));
                return Err(error);
            },
        };
        let end = match parse_date(rows[i].1.as_str()) {
            Ok(date) => date,
            Err(error) => {
                assert(row_window(rows@[i as int]) is Err);
                assert(!windows_readable(rows@, rows@.len() as int));
                return Err(error);
            },
        };
        assert(row_window(rows@[i as int]) == Ok::<Window, Seq<char>>(
            Window { start: start@, end: end@ },
        ));
        let ghost before = ranges@;
        let last = end.earlier(&last_complete);
        if end.is_before(&start) || !last_complete.is_before(&start) {
            ranges.push((start, last));
            assert(windows_of(ranges@) =~= windows_of(before).push(
                Window { start: start@, end: last@ },
            ));
        }
        i = i + 1;
    }
    Ok(find_gaps(&ranges, target))
}

/// The gaps as of an instant: no stored range is believed beyond the last day
/// that is complete by then in the configured timezone.
pub fn gaps_as_of(
    rows: &Vec<(String, String)>,
    target_date: &str,
    timezone: Option<&str>,
    instant: &Instant,
) -> (outcome: Result<Vec<(String, String)>, Error>)
    requires
        has_local_date(instant@),
        MIN_DAY + 1 < utc_day(instant@.seconds),
    ensures
        zone_known(zone_name(opt_str(timezone))) ==> gaps_found(
            outcome,
            rows@,
            target_date@,
            local_day(zone_name(opt_str(timezone)), instant@) - 1,
        ),
        !zone_known(zone_name(opt_str(timezone))) ==> outcome is Err && is_config(
            outcome->Err_0,
            "invalid timezone '"@ + zone_name(opt_str(timezone)) + "'"@,
        ),
{
    match last_complete_day_as_of(timezone, instant) {
        Ok(last_complete) => gaps(rows, target_date, last_complete),
        Err(error) => Err(error),
    }
}

/// The statement that reads the extent of coverage.
pub const EXTENT_SQL: &'static str = "SELECT MIN(start_date), MAX(end_date) FROM synced_ranges WHERE entity_key = ?1";

/// What the extent of coverage is: from the earliest start to the latest end,
/// cut back to the limit, or nothing where all coverage lies behind the limit.
pub open spec fn extent_found(
    outcome: Result<Option<(String, String)>, Error>,
    start: Option<Seq<char>>,
    end: Option<Seq<char>>,
    limit: int,
) -> bool {
    match (start, end) {
        (Some(first), Some(last)) => match (date_of(first), date_of(last)) {
            (Ok(from), Ok(to)) => outcome is Ok && (if is_cut(from, to, limit) {
                outcome->Ok_0 is None
            } else {
                outcome->Ok_0 matches Some(extent) && extent.0@ == first && extent.1@ == (if to
                    <= limit {
                    last
                } else {
                    date_key(limit)
                })
            }),
            (Ok(_), Err(message)) => outcome is Err && is_invalid(outcome->Err_0, message),
            (Err(message), _) => outcome is Err && is_invalid(outcome->Err_0, message),
        },
        _ => outcome is Ok && outcome->Ok_0 is None,
    }
}

/// The extent of coverage, from the two ends that were read. No stored range is
/// believed beyond the last complete day. Coverage that lies behind that day is
/// none.
pub fn coverage_extent(
    start: Option<String>,
    end: Option<String>,
    last_complete: Date,
) -> (outcome: Result<Option<(String, String)>, Error>)
    ensures
        extent_found(outcome, opt_text(start), opt_text(end), last_complete@),
{
    match (start, end) {
        (Some(first), Some(last)) => {
            let from = match parse_date(first.as_str()) {
                Ok(date) => date,
                Err(error) => return Err(error),
            };
            let to = match parse_date(last.as_str()) {
                Ok(date) => date,
                Err(error) => return Err(error),
            };
            if last_complete.is_before(&from) && !to.is_before(&from) {
                Ok(None)
            } else if last_complete.is_before(&to) {
                Ok(Some((first, last_complete.key())))
            } else {
                Ok(Some((first, last)))
            }
        },
        _ => Ok(None),
    }
}

/// The extent of coverage as of an instant: no stored range is believed beyond
/// the last day that is complete by then in the configured timezone.
pub fn coverage_extent_as_of(
    start: Option<String>,
    end: Option<String>,
    timezone: Option<&str>,
    instant: &Instant,
) -> (outcome: Result<Option<(String, String)>, Error>)
    requires
        has_local_date(instant@),
        MIN_DAY + 1 < utc_day(instant@.seconds),
    ensures
        zone_known(zone_name(opt_str(timezone))) ==> extent_found(
            outcome,
            opt_text(start),
            opt_text(end),
            local_day(zone_name(opt_str(timezone)), instant@) - 1,
        ),
        !zone_known(zone_name(opt_str(timezone))) ==> outcome is Err && is_config(
            outcome->Err_0,
            "invalid timezone '"@ + zone_name(opt_str(timezone)) + "'"@,
        ),
{
    match last_complete_day_as_of(timezone, instant) {
        Ok(last_complete) => coverage_extent(start, end, last_complete),
        Err(error) => Err(error),
    }
}

// ---------------------------------------------------------------- cursors

/// The statement that reads the cursor of a source.
pub const READ_CURSOR_SQL: &'static str = "SELECT last_updated_cursor FROM sync_metadata
             WHERE source_type = ?1 AND source_id = ?2";

/// Read the `updated_at` high-water cursor for a source.
pub fn last_updated_cursor(source_type: &str, source_id: &str) -> (statement: Statement)
    ensures
        statement@ == (Command {
            sql: READ_CURSOR_SQL@,
            params: seq![Cell::Text(source_type@), Cell::Text(source_id@)],
        }),
{
    Statement::new(READ_CURSOR_SQL).text(source_type).text(source_id)
}

/// The columns of the cursors. The stamp of the last sync is always the new one;
/// a stored cursor never moves back.
pub open spec fn cursor_fields() -> Seq<Field> {
    seq![
        field("source_type"@, Change::Key),
        field("source_id"@, Change::Key),
        field("last_sync_at"@, Change::Take),
        field("last_updated_cursor"@, Change::Later),
    ]
}

/// The text of the statement that advances the cursor of a source.
pub open spec fn cursor_sql() -> Seq<char> {
    upsert_sql("sync_metadata"@, cursor_fields())
}

/// The row of a cursor.
pub open spec fn cursor_cells(
    source_type: Seq<char>,
    source_id: Seq<char>,
    cursor: Option<Seq<char>>,
    now_text: Seq<char>,
) -> Seq<Cell> {
    seq![
        Cell::Text(source_type),
        Cell::Text(source_id),
        Cell::Text(now_text),
        text_cell(cursor),
    ]
}

/// Advance the cursor + last-sync stamp for a source.
pub fn advance_cursor(
    source_type: &str,
    source_id: &str,
    cursor: Option<&str>,
    now_text: &str,
) -> (statement: Statement)
    ensures
        statement@ == (Command {
            sql: cursor_sql(),
            params: cursor_cells(source_type@, source_id@, opt_str(cursor), now_text@),
        }),
{
    let mut columns: Vec<Column> = Vec::new();
    columns.push(Column { name: "source_type", change: Change::Key });
    columns.push(Column { name: "source_id", change: Change::Key });
    columns.push(Column { name: "last_sync_at", change: Change::Take });
    columns.push(Column { name: "last_updated_cursor", change: Change::Later });
    assert(fields(columns@) =~= cursor_fields());
    let statement = upsert("sync_metadata", &columns)
        .text(source_type)
        .text(source_id)
        .text(now_text)
        .opt(cursor);
    assert(statement@.params =~= cursor_cells(
        source_type@,
        source_id@,
        opt_str(cursor),
        now_text@,
    ));
    statement
}

/// The cursor of a source among the stored rows, null where there is none.
pub open spec fn stored_cursor(
    rows: Map<Seq<Cell>, Seq<Cell>>,
    source_type: Seq<char>,
    source_id: Seq<char>,
) -> Cell {
    match row_at(rows, seq![Cell::Text(source_type), Cell::Text(source_id)]) {
        Some(row) => row[3],
        None => Cell::Null,
    }
}

// ---------------------------------------------------------------- laws

/// Advancing a cursor leaves the later of the stored and the new one: it never
/// moves back, and a missing one never clears it. The cursors of other sources
/// stay as they are.
pub proof fn law_cursors_never_move_back(
    rows: Map<Seq<Cell>, Seq<Cell>>,
    source_type: Seq<char>,
    source_id: Seq<char>,
    cursor: Option<Seq<char>>,
    now_text: Seq<char>,
    other_type: Seq<char>,
    other_id: Seq<char>,
)
    ensures
        ({
            let new = cursor_cells(source_type, source_id, cursor, now_text);
            let after = rows_after(cursor_fields(), rows, new);
            let before = stored_cursor(rows, source_type, source_id);
            &&& stored_cursor(after, source_type, source_id) == later_cell(
                before,
                text_cell(cursor),
            )
            &&& !cell_less(stored_cursor(after, source_type, source_id), before)
            &&& cursor is None ==> stored_cursor(after, source_type, source_id) == before
            &&& (other_type, other_id) != (source_type, source_id) ==> stored_cursor(
                after,
                other_type,
                other_id,
            ) == stored_cursor(rows, other_type, other_id)
        }),
{
    let all = cursor_fields();
    let new = cursor_cells(source_type, source_id, cursor, now_text);
    let key = seq![Cell::Text(source_type), Cell::Text(source_id)];
    let other = seq![Cell::Text(other_type), Cell::Text(other_id)];
    reveal_with_fuel(key_of, 5);
    assert(key_of(all, new, 4) =~= key);
    law_upserts_touch_one_row(all, rows, new, other);
    law_later_is_below_neither(stored_cursor(rows, source_type, source_id), text_cell(cursor));
    if (other_type, other_id) != (source_type, source_id) {
        assert(other[0] != key[0] || other[1] != key[1]);
    }
}

/// A day lies in one of the windows.
pub open spec fn in_windows(windows: Seq<Window>, day: int) -> bool {
    exists|i: int|
        0 <= i < windows.len() && (#[trigger] windows[i]).start <= day <= windows[i].end
}

/// A stored range covers a day.
pub open spec fn row_covers(row: RangeRow, day: int) -> bool {
    row_days(row)->Ok_0.0 <= day <= row_days(row)->Ok_0.1
}

/// Every row is a range that overlaps the window or lies within one day of it.
pub open spec fn all_touch(rows: Seq<RangeRow>, start: int, end: int) -> bool {
    forall|i: int|
        0 <= i < rows.len() ==> {
            let days = (#[trigger] row_days(rows[i]))->Ok_0;
            days.0 <= days.1 && days.0 <= end + 1 && days.1 >= start - 1
        }
}

/// The merged bounds of the first `n` rows enclose the window and the rows, up
/// to the limit, and each bound is the window's or that of a row.
proof fn lemma_merged_bounds(rows: Seq<RangeRow>, n: int, start: int, end: int, limit: int)
    requires
        0 <= n <= rows.len(),
    ensures
        merged_start(rows, n, start) <= start,
        min_day(end, limit) <= merged_end(rows, n, end, limit) <= limit,
        forall|i: int|
            0 <= i < n ==> merged_start(rows, n, start) <= (#[trigger] row_days(rows[i]))->Ok_0.0
                && min_day(row_days(rows[i])->Ok_0.1, limit) <= merged_end(rows, n, end, limit),
        merged_start(rows, n, start) == start || exists|i: int|
            0 <= i < n && (#[trigger] row_days(rows[i]))->Ok_0.0 == merged_start(rows, n, start),
        merged_end(rows, n, end, limit) == min_day(end, limit) || exists|i: int|
            0 <= i < n && min_day((#[trigger] row_days(rows[i]))->Ok_0.1, limit) == merged_end(
                rows,
                n,
                end,
                limit,
            ),
    decreases n,
{
    if n > 0 {
        lemma_merged_bounds(rows, n - 1, start, end, limit);
        assert(row_days(rows[n - 1]) == row_days(rows[n - 1]));
    }
}

/// Merging loses no complete day that was covered and claims none that was not:
/// up to the limit, the merged range holds exactly the days of the new window
/// and of the ranges it replaces, and it ends there at the latest.
pub proof fn law_merging_keeps_coverage(
    rows: Seq<RangeRow>,
    start: int,
    end: int,
    limit: int,
    day: int,
)
    requires
        start <= end,
        start <= limit,
        all_touch(rows, start, end),
    ensures
        merged_start(rows, rows.len() as int, start) <= day <= merged_end(
            rows,
            rows.len() as int,
            end,
            limit,
        ) <==> day <= limit && (start <= day <= end || exists|i: int|
            0 <= i < rows.len() && row_covers(#[trigger] rows[i], day)),
{
    let n = rows.len() as int;
    lemma_merged_bounds(rows, n, start, end, limit);
    let first = merged_start(rows, n, start);
    let last = merged_end(rows, n, end, limit);
    if first <= day <= last && !(start <= day <= end) {
        if day < start {
            let i = choose|i: int| 0 <= i < n && (#[trigger] row_days(rows[i]))->Ok_0.0 == first;
            assert(row_covers(rows[i], day));
        } else {
            let i = choose|i: int|
                0 <= i < n && min_day((#[trigger] row_days(rows[i]))->Ok_0.1, limit) == last;
            assert(row_covers(rows[i], day));
        }
    }
    if exists|i: int| 0 <= i < rows.len() && row_covers(#[trigger] rows[i], day) {
        let i = choose|i: int| 0 <= i < rows.len() && row_covers(#[trigger] rows[i], day);
        assert(row_days(rows[i]) == row_days(rows[i]));
    }
}

/// Stored ranges stay apart: a range that neither touches the new window nor
/// any range that the window replaces does not touch the merged range.
pub proof fn law_merged_range_stays_apart(
    rows: Seq<RangeRow>,
    start: int,
    end: int,
    limit: int,
    other_start: int,
    other_end: int,
)
    requires
        start <= end,
        start <= limit,
        other_start <= other_end,
        all_touch(rows, start, end),
        other_end + 1 < start || end + 1 < other_start,
        forall|i: int|
            0 <= i < rows.len() ==> other_end + 1 < (#[trigger] row_days(rows[i]))->Ok_0.0
                || row_days(rows[i])->Ok_0.1 + 1 < other_start,
    ensures
        other_end + 1 < merged_start(rows, rows.len() as int, start) || merged_end(
            rows,
            rows.len() as int,
            end,
            limit,
        ) + 1 < other_start,
{
    lemma_merged_bounds(rows, rows.len() as int, start, end, limit);
}

/// A coverage claim never goes beyond the last complete day, and the limit
/// takes nothing else away from it: every end up to the limit is kept.
pub proof fn law_claims_end_at_the_limit(rows: Seq<RangeRow>, n: int, end: int, limit: int)
    requires
        0 <= n <= rows.len(),
    ensures
        merged_end(rows, n, end, limit) <= limit,
        min_day(end, limit) <= merged_end(rows, n, end, limit),
        forall|i: int|
            0 <= i < n ==> min_day((#[trigger] row_days(rows[i]))->Ok_0.1, limit) <= merged_end(
                rows,
                n,
                end,
                limit,
            ),
{
    lemma_merged_bounds(rows, n, end, end, limit);
}

/// A stored coverage range, as day numbers.
pub ghost struct Claim {
    pub start: int,
    pub end: int,
    pub count: int,
}

/// The range that a readable row stores.
pub open spec fn claim_of(row: RangeRow) -> Claim {
    Claim { start: row_days(row)->Ok_0.0, end: row_days(row)->Ok_0.1, count: row.item_count as int }
}

/// The ranges that readable rows store.
pub open spec fn claims_of(rows: Seq<RangeRow>) -> Seq<Claim> {
    rows.map_values(|row: RangeRow| claim_of(row))
}

/// The row is found for a window: it overlaps the window or lies within one day
/// of it.
pub open spec fn touches(row: RangeRow, start: int, end: int) -> bool {
    claim_of(row).start <= end + 1 && claim_of(row).end >= start - 1
}

/// The stored rows that a window is merged with.
pub open spec fn touched(stored: Seq<RangeRow>, start: int, end: int) -> Seq<RangeRow> {
    stored.filter(|row: RangeRow| touches(row, start, end))
}

/// The stored rows that a window leaves as they are.
pub open spec fn untouched(stored: Seq<RangeRow>, start: int, end: int) -> Seq<RangeRow> {
    stored.filter(|row: RangeRow| !touches(row, start, end))
}

/// The ranges that are stored once a window is recorded: those it leaves as
/// they are, and the merged one.
pub open spec fn stored_after(
    stored: Seq<RangeRow>,
    start: int,
    end: int,
    limit: int,
    count: int,
) -> Seq<Claim> {
    let rows = touched(stored, start, end);
    claims_of(untouched(stored, start, end)).push(
        Claim {
            start: merged_start(rows, rows.len() as int, start),
            end: merged_end(rows, rows.len() as int, end, limit),
            count: merged_count(rows, rows.len() as int, count),
        },
    )
}

/// At least one day lies between the two ranges.
pub open spec fn apart(left: Claim, right: Claim) -> bool {
    left.end + 1 < right.start || right.end + 1 < left.start
}

/// No range is empty, and any two are apart.
pub open spec fn disjoint(claims: Seq<Claim>) -> bool {
    &&& forall|i: int| 0 <= i < claims.len() ==> (#[trigger] claims[i]).start <= claims[i].end
    &&& forall|i: int, j: int|
        0 <= i < j < claims.len() ==> apart(#[trigger] claims[i], #[trigger] claims[j])
}

/// A range covers the day.
pub open spec fn holds_day(claim: Claim, day: int) -> bool {
    claim.start <= day <= claim.end
}

/// One of the ranges covers the day.
pub open spec fn covered(claims: Seq<Claim>, day: int) -> bool {
    exists|i: int| 0 <= i < claims.len() && holds_day(#[trigger] claims[i], day)
}

/// Every range ends on the day or before it.
pub open spec fn ends_by(claims: Seq<Claim>, day: int) -> bool {
    forall|i: int| 0 <= i < claims.len() ==> (#[trigger] claims[i]).end <= day
}

/// The items of all ranges.
pub open spec fn items(claims: Seq<Claim>) -> int
    decreases claims.len(),
{
    if claims.len() == 0 {
        0
    } else {
        items(claims.drop_last()) + claims.last().count
    }
}

/// The merged count is that of the window and of the ranges it replaces.
proof fn lemma_merged_count(rows: Seq<RangeRow>, n: int, count: int)
    requires
        0 <= n <= rows.len(),
    ensures
        merged_count(rows, n, count) == count + items(claims_of(rows.take(n))),
    decreases n,
{
    if n > 0 {
        lemma_merged_count(rows, n - 1, count);
        assert(claims_of(rows.take(n)).drop_last() =~= claims_of(rows.take(n - 1)));
        assert(claims_of(rows.take(n)).last() == claim_of(rows[n - 1]));
    }
}

/// A window parts the stored ranges in two: every row is among those it touches
/// or those it leaves, and those keep their distance.
proof fn lemma_parted(stored: Seq<RangeRow>, start: int, end: int)
    requires
        disjoint(claims_of(stored)),
    ensures
        forall|i: int|
            0 <= i < touched(stored, start, end).len() ==> {
                let row = #[trigger] touched(stored, start, end)[i];
                touches(row, start, end) && stored.contains(row)
            },
        forall|i: int|
            0 <= i < untouched(stored, start, end).len() ==> {
                let row = #[trigger] untouched(stored, start, end)[i];
                !touches(row, start, end) && stored.contains(row)
            },
        forall|i: int|
            0 <= i < stored.len() ==> touched(stored, start, end).contains(#[trigger] stored[i])
                || untouched(stored, start, end).contains(stored[i]),
        disjoint(claims_of(untouched(stored, start, end))),
        forall|i: int, j: int|
            0 <= i < untouched(stored, start, end).len() && 0 <= j < touched(
                stored,
                start,
                end,
            ).len() ==> apart(
                claim_of(#[trigger] untouched(stored, start, end)[i]),
                claim_of(#[trigger] touched(stored, start, end)[j]),
            ),
        items(claims_of(stored)) == items(claims_of(touched(stored, start, end))) + items(
            claims_of(untouched(stored, start, end)),
        ),
    decreases stored.len(),
{
    reveal(Seq::filter);
    let t = touched(stored, start, end);
    let u = untouched(stored, start, end);
    if stored.len() == 0 {
    } else {
        let before = stored.drop_last();
        let row = stored.last();
        let old_t = touched(before, start, end);
        let old_u = untouched(before, start, end);
        assert(claims_of(before) =~= claims_of(stored).drop_last());
        assert forall|i: int| 0 <= i < claims_of(before).len() implies (
        #[trigger] claims_of(before)[i]) == claims_of(stored)[i] by {}
        lemma_parted(before, start, end);
        assert forall|other: RangeRow| #[trigger] before.contains(other) implies stored.contains(
            other,
        ) && apart(claim_of(other), claim_of(row)) by {
            let k = choose|k: int| 0 <= k < before.len() && before[k] == other;
            assert(stored[k] == other);
            assert(apart(claims_of(stored)[k], claims_of(stored)[stored.len() - 1]));
        }
        assert(stored[stored.len() - 1] == row);
        assert(stored.contains(row));
        assert(claims_of(stored)[stored.len() - 1].start <= claims_of(stored)[stored.len() - 1].end);
        if touches(row, start, end) {
            assert(t =~= old_t.push(row));
            assert(u =~= old_u);
            assert(claims_of(t).drop_last() =~= claims_of(old_t));
            assert(t[t.len() - 1] == row);
        } else {
            assert(u =~= old_u.push(row));
            assert(t =~= old_t);
            assert(claims_of(u).drop_last() =~= claims_of(old_u));
            assert(u[u.len() - 1] == row);
            assert forall|i: int, j: int| 0 <= i < j < claims_of(u).len() implies apart(
                #[trigger] claims_of(u)[i],
                #[trigger] claims_of(u)[j],
            ) by {
                assert(claims_of(u)[i] == claims_of(old_u)[i]);
                if j < old_u.len() {
                    assert(claims_of(u)[j] == claims_of(old_u)[j]);
                } else {
                    assert(before.contains(old_u[i]));
                }
            }
            assert forall|i: int| 0 <= i < claims_of(u).len() implies (
            #[trigger] claims_of(u)[i]).start <= claims_of(u)[i].end by {
                if i < old_u.len() {
                    assert(claims_of(u)[i] == claims_of(old_u)[i]);
                }
            }
        }
        assert forall|i: int| 0 <= i < t.len() implies touches(#[trigger] t[i], start, end)
            && stored.contains(t[i]) by {
            if i < old_t.len() {
                assert(t[i] == old_t[i]);
                assert(before.contains(old_t[i]));
            }
        }
        assert forall|i: int| 0 <= i < u.len() implies !touches(#[trigger] u[i], start, end)
            && stored.contains(u[i]) by {
            if i < old_u.len() {
                assert(u[i] == old_u[i]);
                assert(before.contains(old_u[i]));
            }
        }
        assert forall|i: int| 0 <= i < stored.len() implies t.contains(#[trigger] stored[i])
            || u.contains(stored[i]) by {
            if i < before.len() {
                assert(before[i] == stored[i]);
                if old_t.contains(before[i]) {
                    let k = choose|k: int| 0 <= k < old_t.len() && old_t[k] == before[i];
                    assert(t[k] == stored[i]);
                } else {
                    let k = choose|k: int| 0 <= k < old_u.len() && old_u[k] == before[i];
                    assert(u[k] == stored[i]);
                }
            }
        }
        assert forall|i: int, j: int| 0 <= i < u.len() && 0 <= j < t.len() implies apart(
            claim_of(#[trigger] u[i]),
            claim_of(#[trigger] t[j]),
        ) by {
            if i < old_u.len() {
                assert(u[i] == old_u[i]);
                assert(before.contains(old_u[i]));
            }
            if j < old_t.len() {
                assert(t[j] == old_t[j]);
                assert(before.contains(old_t[j]));
            }
        }
    }
}

/// Recording a window keeps the stored ranges what they are, pairwise apart and
/// none empty. They cover the complete days that they covered before and those
/// of the window, and no others, and their item counts grow by the window's.
/// Days beyond the limit are never added; where none was claimed, the days are
/// exactly those from before and the window's.
pub proof fn law_recording_keeps_the_ranges_apart(
    stored: Seq<RangeRow>,
    start: int,
    end: int,
    limit: int,
    count: int,
    day: int,
)
    requires
        start <= end,
        start <= limit,
        readable(stored, stored.len() as int),
        disjoint(claims_of(stored)),
    ensures
        disjoint(stored_after(stored, start, end, limit, count)),
        day <= limit ==> (covered(stored_after(stored, start, end, limit, count), day)
            <==> covered(claims_of(stored), day) || start <= day <= end),
        day > limit && covered(stored_after(stored, start, end, limit, count), day) ==> covered(
            claims_of(stored),
            day,
        ),
        end <= limit && ends_by(claims_of(stored), limit) ==> (covered(
            stored_after(stored, start, end, limit, count),
            day,
        ) <==> covered(claims_of(stored), day) || start <= day <= end),
        items(stored_after(stored, start, end, limit, count)) == items(claims_of(stored)) + count,
{
    let t = touched(stored, start, end);
    let u = untouched(stored, start, end);
    let n = t.len() as int;
    let kept = claims_of(u);
    let after = stored_after(stored, start, end, limit, count);
    let merged = after.last();
    lemma_parted(stored, start, end);
    assert forall|row: RangeRow| #[trigger] stored.contains(row) implies claim_of(row).start
        <= claim_of(row).end by {
        let k = choose|k: int| 0 <= k < stored.len() && stored[k] == row;
        assert(claims_of(stored)[k] == claim_of(row));
    }
    assert(all_touch(t, start, end)) by {
        assert forall|i: int| 0 <= i < t.len() implies {
            let days = (#[trigger] row_days(t[i]))->Ok_0;
            days.0 <= days.1 && days.0 <= end + 1 && days.1 >= start - 1
        } by {
            assert(touches(t[i], start, end));
            assert(stored.contains(t[i]));
        }
    }
    lemma_merged_bounds(t, n, start, end, limit);
    law_merging_keeps_coverage(t, start, end, limit, day);
    // apart
    assert forall|i: int| 0 <= i < kept.len() implies apart(#[trigger] kept[i], merged) by {
        let other = claim_of(u[i]);
        assert(stored.contains(u[i]));
        assert forall|j: int| 0 <= j < t.len() implies other.end + 1 < (
        #[trigger] row_days(t[j]))->Ok_0.0 || row_days(t[j])->Ok_0.1 + 1 < other.start by {
            assert(apart(claim_of(u[i]), claim_of(t[j])));
        }
        law_merged_range_stays_apart(t, start, end, limit, other.start, other.end);
    }
    assert forall|i: int, j: int| 0 <= i < j < after.len() implies apart(
        #[trigger] after[i],
        #[trigger] after[j],
    ) by {
        assert(after[i] == kept[i]);
        if j < kept.len() {
            assert(after[j] == kept[j]);
        }
    }
    assert forall|i: int| 0 <= i < after.len() implies (#[trigger] after[i]).start
        <= after[i].end by {
        if i < kept.len() {
            assert(after[i] == kept[i]);
        }
    }
    // coverage
    if covered(after, day) {
        let i = choose|i: int| 0 <= i < after.len() && holds_day(#[trigger] after[i], day);
        if i < kept.len() {
            assert(stored.contains(u[i]));
            let k = choose|k: int| 0 <= k < stored.len() && stored[k] == u[i];
            assert(holds_day(claims_of(stored)[k], day));
        } else if !(start <= day <= end) {
            let j = choose|j: int| 0 <= j < t.len() && row_covers(#[trigger] t[j], day);
            assert(stored.contains(t[j]));
            let k = choose|k: int| 0 <= k < stored.len() && stored[k] == t[j];
            assert(holds_day(claims_of(stored)[k], day));
        }
    }
    if day <= limit && covered(claims_of(stored), day) {
        let k = choose|k: int|
            0 <= k < claims_of(stored).len() && holds_day(#[trigger] claims_of(stored)[k], day);
        if t.contains(stored[k]) {
            let j = choose|j: int| 0 <= j < t.len() && t[j] == stored[k];
            assert(row_covers(t[j], day));
            assert(holds_day(after[kept.len() as int], day));
        } else {
            let j = choose|j: int| 0 <= j < u.len() && u[j] == stored[k];
            assert(after[j] == claim_of(u[j]));
            assert(holds_day(after[j], day));
        }
    }
    if day <= limit && start <= day <= end {
        assert(holds_day(after[kept.len() as int], day));
    }
    // items
    lemma_merged_count(t, n, count);
    assert(t.take(n) =~= t);
    assert(after.drop_last() =~= kept);
}

/// Recording a window for an entity takes ranges away and stores one under the
/// name of that entity alone.
pub proof fn law_recording_names_one_entity(
    entity_key: Seq<char>,
    rows: Seq<RangeRow>,
    n: int,
    i: int,
    start: int,
    end: int,
    synced_at: Seq<char>,
    count: int,
)
    requires
        0 <= i < n <= rows.len(),
    ensures
        delete_ranges(entity_key, rows, n).len() == n,
        delete_ranges(entity_key, rows, n)[i] == (Command {
            sql: DELETE_RANGE_SQL@,
            params: seq![
                Cell::Text(entity_key),
                Cell::Text(rows[i].start_date@),
                Cell::Text(rows[i].end_date@),
            ],
        }),
        insert_range(entity_key, start, end, synced_at, count).params[0] == Cell::Text(entity_key),
    decreases n,
{
    if n == 1 {
        assert(delete_ranges(entity_key, rows, 0) =~= Seq::empty());
    } else if i < n - 1 {
        law_recording_names_one_entity(
            entity_key,
            rows,
            n - 1,
            i,
            start,
            end,
            synced_at,
            count,
        );
    } else {
        law_recording_names_one_entity(
            entity_key,
            rows,
            n - 1,
            0,
            start,
            end,
            synced_at,
            count,
        );
    }
}

/// The windows are in order of their starts and none is empty.
pub open spec fn in_order(windows: Seq<Window>) -> bool {
    &&& forall|i: int| 0 <= i < windows.len() ==> (#[trigger] windows[i]).start <= windows[i].end
    &&& forall|i: int, j: int|
        0 <= i <= j < windows.len() ==> (#[trigger] windows[i]).start <= (
        #[trigger] windows[j]).start
}

/// The coverage so far reaches at least as far as each window.
proof fn lemma_covered_until(windows: Seq<Window>, n: int)
    requires
        1 <= n <= windows.len(),
    ensures
        forall|i: int| 0 <= i < n ==> (#[trigger] windows[i]).end <= covered_until(windows, n),
        exists|i: int| 0 <= i < n && (#[trigger] windows[i]).end == covered_until(windows, n),
    decreases n,
{
    if n > 1 {
        lemma_covered_until(windows, n - 1);
        let i = choose|i: int|
            0 <= i < n - 1 && (#[trigger] windows[i]).end == covered_until(windows, n - 1);
        if covered_until(windows, n) == windows[n - 1].end {
            assert(windows[n - 1].end == covered_until(windows, n));
        } else {
            assert(windows[i].end == covered_until(windows, n));
        }
    } else {
        assert(windows[0].end == covered_until(windows, n));
    }
}

/// A day up to the end of coverage lies in a hole exactly when none of the
/// first `n` windows covers it.
proof fn lemma_holes(windows: Seq<Window>, n: int, day: int)
    requires
        1 <= n <= windows.len(),
        in_order(windows),
        windows[0].start <= day <= covered_until(windows, n),
    ensures
        in_windows(holes(windows, n), day) <==> !in_windows(windows.take(n), day),
        forall|k: int|
            0 <= k < holes(windows, n).len() ==> windows[0].end < (#[trigger] holes(
                windows,
                n,
            )[k]).start <= holes(windows, n)[k].end < windows[n - 1].start,
    decreases n,
{
    let found = holes(windows, n);
    let seen = windows.take(n);
    if n == 1 {
        assert(seen[0] == windows[0]);
    } else {
        lemma_covered_until(windows, n - 1);
        let before = covered_until(windows, n - 1);
        let next = windows[n - 1];
        let old_found = holes(windows, n - 1);
        let old_seen = windows.take(n - 1);
        lemma_holes(windows, n - 1, windows[0].start);
        if day <= before {
            lemma_holes(windows, n - 1, day);
            if in_windows(old_seen, day) {
                let i = choose|i: int|
                    0 <= i < old_seen.len() && (#[trigger] old_seen[i]).start <= day
                        <= old_seen[i].end;
                assert(seen[i] == old_seen[i]);
            }
            if in_windows(seen, day) && !in_windows(old_seen, day) {
                let i = choose|i: int|
                    0 <= i < seen.len() && (#[trigger] seen[i]).start <= day <= seen[i].end;
                if i < n - 1 {
                    assert(old_seen[i] == seen[i]);
                }
                assert(i == n - 1);
                assert(next.start <= day);
                if in_windows(old_found, day) {
                    let k = choose|k: int|
                        0 <= k < old_found.len() && (#[trigger] old_found[k]).start <= day
                            <= old_found[k].end;
                    assert(old_found[k].end < windows[n - 2].start);
                    assert(windows[n - 2].start <= windows[n - 1].start);
                }
            }
            if in_windows(old_found, day) {
                let k = choose|k: int|
                    0 <= k < old_found.len() && (#[trigger] old_found[k]).start <= day
                        <= old_found[k].end;
                assert(found[k] == old_found[k]);
            }
            if in_windows(found, day) {
                let k = choose|k: int|
                    0 <= k < found.len() && (#[trigger] found[k]).start <= day <= found[k].end;
                if k < old_found.len() {
                    assert(old_found[k] == found[k]);
                }
            }
        } else {
            assert forall|i: int| 0 <= i < n - 1 implies (#[trigger] seen[i]).end < day by {
                assert(seen[i] == windows[i]);
            }
            assert(seen[n - 1] == next);
            if in_windows(found, day) {
                let k = choose|k: int|
                    0 <= k < found.len() && (#[trigger] found[k]).start <= day <= found[k].end;
                if k < old_found.len() {
                    assert(old_found[k] == found[k]);
                    assert(old_found[k].end < windows[n - 2].start);
                    assert(windows[n - 2].end <= before);
                }
            }
            if day < next.start {
                assert(found.last().start <= day <= found.last().end);
                assert(found[found.len() - 1] == found.last());
            }
        }
        assert forall|k: int| 0 <= k < found.len() implies windows[0].end < (
        #[trigger] found[k]).start <= found[k].end < windows[n - 1].start by {
            if k < old_found.len() {
                assert(found[k] == old_found[k]);
                assert(windows[n - 2].start <= windows[n - 1].start);
            } else {
                assert(windows[0].end <= before);
            }
        }
    }
}

/// The gaps are exactly the uncovered days: from the start of coverage up to
/// the target, a day lies in a gap if and only if no stored window covers it.
pub proof fn law_gaps_are_the_uncovered_days(windows: Seq<Window>, target: int, day: int)
    requires
        windows.len() > 0,
        in_order(windows),
        windows[0].start <= day <= target,
    ensures
        in_windows(gaps_until(windows, target), day) <==> !in_windows(windows, day),
{
    let n = windows.len() as int;
    let found = gaps_until(windows, target);
    let inner = holes(windows, n);
    let reach = covered_until(windows, n);
    assert(windows.take(n) =~= windows);
    lemma_covered_until(windows, n);
    lemma_holes(windows, n, windows[0].start);
    if day <= reach {
        lemma_holes(windows, n, day);
        if in_windows(inner, day) {
            let k = choose|k: int|
                0 <= k < inner.len() && (#[trigger] inner[k]).start <= day <= inner[k].end;
            assert(found[k] == inner[k]);
        }
        if in_windows(found, day) {
            let k = choose|k: int|
                0 <= k < found.len() && (#[trigger] found[k]).start <= day <= found[k].end;
            if k < inner.len() {
                assert(inner[k] == found[k]);
            }
        }
    } else {
        assert(found.last().start <= day <= found.last().end);
        assert(found[found.len() - 1] == found.last());
    }
}

/// Advancing a cursor writes the source, the stamp and the cursor into the columns
/// that are named after them, and reading a cursor looks for the source there.
pub proof fn law_a_cursor_reaches_its_columns(
    source_type: Seq<char>,
    source_id: Seq<char>,
    cursor: Option<Seq<char>>,
    now_text: Seq<char>,
)
    ensures
        ({
            let command = Command {
                sql: cursor_sql(),
                params: cursor_cells(source_type, source_id, cursor, now_text),
            };
            let table = "sync_metadata"@;
            &&& sets(command, table, cursor_fields(), "source_type"@, Cell::Text(source_type))
            &&& sets(command, table, cursor_fields(), "source_id"@, Cell::Text(source_id))
            &&& always_leaves(
                command,
                table,
                cursor_fields(),
                "last_sync_at"@,
                Cell::Text(now_text),
            )
            &&& sets(command, table, cursor_fields(), "last_updated_cursor"@, text_cell(cursor))
        }),
        READ_CURSOR_SQL@ == "SELECT last_updated_cursor FROM sync_metadata
             WHERE source_type = ?1 AND source_id = ?2"@,
{
    let command = Command {
        sql: cursor_sql(),
        params: cursor_cells(source_type, source_id, cursor, now_text),
    };
    lemma_reaches_its_column(command, "sync_metadata"@, cursor_fields(), 0);
    assert(cursor_fields()[0].name == "source_type"@);
    lemma_reaches_its_column(command, "sync_metadata"@, cursor_fields(), 1);
    assert(cursor_fields()[1].name == "source_id"@);
    lemma_reaches_its_column(command, "sync_metadata"@, cursor_fields(), 2);
    assert(cursor_fields()[2].name == "last_sync_at"@);
    lemma_reaches_its_column(command, "sync_metadata"@, cursor_fields(), 3);
    assert(cursor_fields()[3].name == "last_updated_cursor"@);
}

/// What is kept of a run goes by its entity: the lock, the job and the ranges. Each
/// value stands for the column that the statement names it for.
pub proof fn law_what_is_kept_goes_by_its_entity(
    entity: Seq<char>,
    clock: Seq<char>,
    synced: int,
    skipped: int,
    failed: Option<Seq<char>>,
    start: int,
    end: int,
    row: RangeRow,
)
    ensures
        delete_lock(entity) == (Command {
            sql: "DELETE FROM sync_locks WHERE entity_key = ?1"@,
            params: seq![Cell::Text(entity)],
        }),
        insert_lock(entity, clock) == (Command {
            sql: "INSERT INTO sync_locks (entity_key, started_at) VALUES (?1, ?2)"@,
            params: seq![Cell::Text(entity), Cell::Text(clock)],
        }),
        completed_job(entity, clock, synced, skipped, failed) == (Command {
            sql: "UPDATE sync_jobs SET status = 'completed', completed_at = ?2,
             synced = ?3, skipped = ?4, failed_items = ?5
         WHERE entity_key = ?1"@,
            params: seq![
                Cell::Text(entity),
                Cell::Text(clock),
                Cell::Integer(synced),
                Cell::Integer(skipped),
                text_cell(failed),
            ],
        }),
        insert_range(entity, start, end, clock, synced) == (Command {
            sql: "INSERT INTO synced_ranges (entity_key, start_date, end_date, synced_at, item_count)
         VALUES (?1, ?2, ?3, ?4, ?5)"@,
            params: seq![
                Cell::Text(entity),
                Cell::Text(date_key(start)),
                Cell::Text(date_key(end)),
                Cell::Text(clock),
                Cell::Integer(synced),
            ],
        }),
        delete_ranges(entity, seq![row], 1) == seq![
            Command {
                sql: "DELETE FROM synced_ranges WHERE entity_key = ?1 AND start_date = ?2 AND end_date = ?3"@,
                params: seq![
                    Cell::Text(entity),
                    Cell::Text(row.start_date@),
                    Cell::Text(row.end_date@),
                ],
            },
        ],
{
    reveal_with_fuel(delete_ranges, 2);
    assert(delete_ranges(entity, seq![row], 1) =~= seq![
        Command {
            sql: DELETE_RANGE_SQL@,
            params: seq![
                Cell::Text(entity),
                Cell::Text(row.start_date@),
                Cell::Text(row.end_date@),
            ],
        },
    ]);
}

} // verus!
