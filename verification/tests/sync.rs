use std::collections::VecDeque;

use githubdw::calendar::Date;
use githubdw::clock::Instant;
use githubdw::error::Error;
use githubdw::fetch::pull_requests::parse_rest_file_patches;
use githubdw::fetch::{after_failure, decode_graphql, graphql_arguments, rest_arguments, GhClient};
use githubdw::ingest::patch_statements;
use githubdw::json::Json;
use githubdw::run::{is_anchor, Course, Next, RunTurn, Settings};
use githubdw::sql::{Batch, SqlValue, Statement};
use githubdw::storage::monitor_repository::add_user;
use githubdw::storage::schema;
use githubdw::storage::sync_state_repository::{last_updated_cursor, RangeRow};
use githubdw::storage::time_dimension::{CONFIG_SQL, CORE_HOURS_END_KEY, CORE_HOURS_START_KEY};
use githubdw::sync::{SyncOptions, SyncSummary, month_windows};
use githubdw::walk::{Job, Request};
use rusqlite::types::Value;
use rusqlite::{Connection, OptionalExtension};
use rusqlite_migration::{Migrations, M};

fn convert(value: &serde_json::Value) -> Json {
    match value {
        serde_json::Value::Null => Json::Null,
        serde_json::Value::Bool(flag) => Json::Bool(*flag),
        serde_json::Value::Number(number) => Json::Number(number.as_i64()),
        serde_json::Value::String(text) => Json::Text(text.clone()),
        serde_json::Value::Array(items) => Json::Array(items.iter().map(convert).collect()),
        serde_json::Value::Object(members) => Json::Object(
            members
                .iter()
                .map(|(name, member)| (name.clone(), convert(member)))
                .collect(),
        ),
    }
}

fn json(text: &str) -> Json {
    convert(&serde_json::from_str(text).expect("JSON"))
}

fn open() -> Connection {
    let mut conn = Connection::open_in_memory().expect("open in-memory db");
    let steps: Vec<M<'static>> = schema::migrations().into_iter().map(M::up).collect();
    conn.pragma_update(None, "foreign_keys", "OFF").expect("foreign keys off");
    Migrations::new(steps).to_latest(&mut conn).expect("migrate");
    conn.pragma_update(None, "foreign_keys", "ON").expect("foreign keys on");
    conn
}

fn database(error: rusqlite::Error) -> Error {
    Error::Database(error.to_string())
}

fn bound(statement: &Statement) -> Vec<Value> {
    statement
        .params
        .iter()
        .map(|value| match value {
            SqlValue::Null => Value::Null,
            SqlValue::Integer(n) => Value::Integer(*n),
            SqlValue::Text(text) => Value::Text(text.clone()),
        })
        .collect()
}

fn execute(conn: &Connection, statement: &Statement) -> Result<usize, Error> {
    conn.execute(&statement.sql, rusqlite::params_from_iter(bound(statement)))
        .map_err(database)
}

fn run_all(conn: &Connection, statements: &[Statement]) -> Result<(), Error> {
    for statement in statements {
        execute(conn, statement)?;
    }
    Ok(())
}

fn run_batch(conn: &Connection, batch: Batch) -> Result<(), Error> {
    run_all(conn, &batch.statements)?;
    match batch.failure {
        Some(error) => Err(error),
        None => Ok(()),
    }
}

fn optional_text(conn: &Connection, statement: &Statement) -> Result<Option<String>, Error> {
    let found: Option<Option<String>> = conn
        .query_row(
            &statement.sql,
            rusqlite::params_from_iter(bound(statement)),
            |row| row.get(0),
        )
        .optional()
        .map_err(database)?;
    Ok(found.flatten())
}

fn config(conn: &Connection, key: &str) -> Option<String> {
    conn.query_row(CONFIG_SQL, [key], |row| row.get(0)).ok()
}

/// A transport that replays queued responses and records invocations.
struct Fixture {
    responses: VecDeque<Result<String, Error>>,
    calls: Vec<Vec<String>>,
}

impl Fixture {
    fn new(responses: Vec<Result<String, Error>>) -> Fixture {
        Fixture { responses: responses.into_iter().collect(), calls: Vec::new() }
    }
}

/// A client over a fixture, which never waits.
struct Client {
    transport: Fixture,
    pacing: GhClient,
}

impl Client {
    fn new(transport: Fixture) -> Client {
        Client { transport, pacing: GhClient::new().without_sleeping() }
    }

    fn run(&mut self, arguments: Vec<String>) -> Result<Json, Error> {
        let (now, _) = wall_clock();
        assert!(self.pacing.pauses_before(&now).is_empty());
        let mut failures: u32 = 0;
        loop {
            self.transport.calls.push(arguments.clone());
            let outcome = match self.transport.responses.pop_front() {
                Some(response) => response,
                None => Err(Error::GitHubApi("no more fixture responses".to_string())),
            };
            match outcome {
                Ok(stdout) => return Ok(json(&stdout)),
                Err(error) => {
                    failures += 1;
                    if after_failure(failures, &error).is_none() {
                        return Err(error);
                    }
                }
            }
        }
    }

    fn graphql(&mut self, query: &str, variables: &Vec<(String, String)>) -> Result<Json, Error> {
        let response = self.run(graphql_arguments(query, variables))?;
        self.pacing.accept(&response)?;
        Ok(response)
    }

    fn graphql_search(
        &mut self,
        query: &str,
        variables: &Vec<(String, String)>,
    ) -> Result<Json, Error> {
        let (now, _) = wall_clock();
        assert_eq!(self.pacing.search_pause(&now), None);
        self.graphql(query, variables)
    }

    fn rest(&mut self, path: &str) -> Result<Json, Error> {
        self.run(rest_arguments(path))
    }
}

fn wall_clock() -> (Instant, String) {
    let text = "2026-08-17T03:00:00+00:00";
    (Instant::parse(text).unwrap(), text.to_string())
}

struct Syncer<'a> {
    connection: &'a Connection,
    client: &'a mut Client,
    now: Instant,
}

impl<'a> Syncer<'a> {
    fn new(connection: &'a Connection, client: &'a mut Client) -> Syncer<'a> {
        let (now, _) = wall_clock();
        Syncer { connection, client, now }
    }

    fn as_of(mut self, instant: Instant) -> Syncer<'a> {
        self.now = instant;
        self
    }
}

impl Syncer<'_> {
    /// Sync a repository ("owner/name"): pull requests and issues.
    fn sync_repository(
        &mut self,
        repository_name: &str,
        options: &SyncOptions,
    ) -> Result<SyncSummary, Error> {
        let course =
            Course::repository(repository_name, options.clone(), self.settings(), self.anchor());
        self.sync(course)
    }

    /// Sync one monitored user: pull requests they authored and reviews they
    /// gave, across every repository GitHub will show us.
    fn sync_user(
        &mut self,
        login: &str,
        options: &SyncOptions,
    ) -> Result<SyncSummary, Error> {
        let course = Course::user(login, options.clone(), self.settings(), self.anchor());
        self.sync(course)
    }

    fn anchor(&self) -> Instant {
        assert!(is_anchor(&self.now), "the run is anchored inside the calendar");
        self.now
    }

    fn settings(&self) -> Settings {
        Settings {
            timezone: config(self.connection, "timezone"),
            core_hours_start: config(self.connection, CORE_HOURS_START_KEY),
            core_hours_end: config(self.connection, CORE_HOURS_END_KEY),
            bot_login_suffix: config(self.connection, "bot_login_suffix"),
        }
    }

    fn sync(&mut self, course: Course) -> Result<SyncSummary, Error> {
        let existing = optional_text(self.connection, &course.read_lock())?;
        let (now, clock) = wall_clock();
        let mut turn = course.open(existing.as_deref(), &now, &clock);
        loop {
            let (_, clock) = wall_clock();
            turn = match run_all(self.connection, &turn.statements) {
                Err(error) => turn.next.failed(error, &clock),
                Ok(_) => match turn.next {
                    Next::Done(outcome) => return outcome,
                    Next::OutOfCalendar => panic!("the window of the run reaches past the calendar"),
                    next => self.step(next, &clock),
                },
            };
        }
    }

    /// Do what a run asks for, and tell it what came of it.
    fn step(&mut self, next: Next, clock: &str) -> RunTurn {
        match next {
            Next::Proceed(state) => state.proceed(clock),
            Next::ReadExtent(statement, state) => match self.extent(&statement) {
                Ok((first, last)) => state.read(first, last, clock),
                Err(error) => state.failed(error, clock),
            },
            Next::ReadCursor(statement, state) => match optional_text(self.connection, &statement) {
                Ok(cursor) => state.read(cursor.as_deref(), clock),
                Err(error) => state.failed(error, clock),
            },
            Next::Fetch(request, state) => match self.fetch(&request) {
                Ok(response) => match decode_graphql(&response) {
                    Ok(data) => {
                        assert!(state.can_count(), "the pages and items can be counted");
                        state.fetched(data, clock)
                    }
                    Err(error) => state.fetch_failed(error, clock),
                },
                Err(error) => state.fetch_failed(error, clock),
            },
            Next::Store(job, state) => match run_all(self.connection, &job.setup) {
                Ok(_) => {
                    assert!(state.can_count(), "the pages and items can be counted");
                    let failure = self.store(job).err().map(|error| error.message());
                    state.stored(failure.as_deref(), clock)
                }
                Err(error) => state.failed(error, clock),
            },
            Next::ReadRanges(statement, state) => match self.ranges(&statement) {
                Ok(rows) => {
                    assert!(state.can_record(&rows), "the items can be counted");
                    state.read(&rows, clock)
                }
                Err(error) => state.failed(error, clock),
            },
            Next::Close(state) => state.close(clock),
            next => RunTurn { statements: Vec::new(), next },
        }
    }

    fn fetch(&mut self, request: &Request) -> Result<Json, Error> {
        if request.is_search {
            self.client.graphql_search(&request.query, &request.variables)
        } else {
            self.client.graphql(&request.query, &request.variables)
        }
    }

    fn store(&mut self, job: Job) -> Result<(), Error> {
        run_batch(self.connection, job.batch)?;
        if let Some(path) = job.patches {
            if let Ok(response) = self.client.rest(&path) {
                let patches = parse_rest_file_patches(&response);
                run_all(self.connection, &patch_statements(&job.item_id, &patches))?;
            }
        }
        Ok(())
    }

    fn extent(&self, statement: &Statement) -> Result<(Option<String>, Option<String>), Error> {
        self.connection
            .query_row(
                &statement.sql,
                rusqlite::params_from_iter(bound(statement)),
                |row| Ok((row.get(0)?, row.get(1)?)),
            )
            .map_err(database)
    }

    fn ranges(&self, statement: &Statement) -> Result<Vec<RangeRow>, Error> {
        let mut prepared = self.connection.prepare(&statement.sql).map_err(database)?;
        let rows = prepared
            .query_map(rusqlite::params_from_iter(bound(statement)), |row| {
                Ok(RangeRow {
                    start_date: row.get(0)?,
                    end_date: row.get(1)?,
                    item_count: row.get(2)?,
                })
            })
            .map_err(database)?;
        rows.collect::<Result<Vec<RangeRow>, rusqlite::Error>>().map_err(database)
    }
}

fn stored_cursor(conn: &Connection, source_type: &str, source: &str) -> Option<String> {
    optional_text(conn, &last_updated_cursor(source_type, source)).unwrap()
}

/// 2026-08-17T03:00:00Z — evening of the 16th in Los Angeles, so the last
/// complete local day is the 15th.
fn evening_instant() -> Instant {
    Instant::parse("2026-08-17T03:00:00Z").unwrap()
}

const BUDGET: &str =
    r#"{"limit": 5000, "cost": 1, "remaining": 4999, "resetAt": "2099-01-01T00:00:00Z"}"#;

fn optional(text: Option<&str>) -> String {
    match text {
        Some(text) => format!("\"{text}\""),
        None => "null".to_string(),
    }
}

/// The members of a pull request node, without the braces around them.
fn pr_members(number: i64, created_at: &str, updated_at: &str, files: &str) -> String {
    format!(
        r#""number": {number}, "title": "PR {number}", "body": "body text",
        "state": "MERGED", "isDraft": false,
        "createdAt": "{created_at}", "updatedAt": "{updated_at}",
        "mergedAt": "2026-01-06T09:00:00Z", "closedAt": "2026-01-06T09:00:00Z",
        "baseRefName": "main", "headRefName": "feature/{number}",
        "additions": 10, "deletions": 2, "changedFiles": 1,
        "author": {{"login": "octocat", "__typename": "User"}},
        "mergedBy": {{"login": "hubot", "__typename": "User"}},
        "reviews": {{"nodes": [{{
            "id": "REV{number}", "state": "APPROVED", "body": "",
            "submittedAt": "2026-01-06T08:00:00Z",
            "author": {{"login": "hubot", "__typename": "User"}}
        }}]}},
        "reviewThreads": {{"nodes": []}}, "comments": {{"nodes": []}},
        "files": {{"nodes": [{files}]}}, "commits": {{"nodes": []}}"#
    )
}

fn pr_node(number: i64, created_at: &str, updated_at: &str) -> String {
    let file =
        r#"{"path": "src/lib.rs", "changeType": "MODIFIED", "additions": 10, "deletions": 2}"#;
    format!("{{{}}}", pr_members(number, created_at, updated_at, file))
}

fn page_of(has_next: bool, cursor: Option<&str>, nodes: Vec<String>) -> String {
    format!(
        r#"{{"data": {{"rateLimit": {BUDGET}, "repository": {{
            "nameWithOwner": "octocat/hello", "primaryLanguage": {{"name": "Rust"}},
            "isFork": false, "isPrivate": false, "defaultBranchRef": {{"name": "main"}},
            "createdAt": "2020-01-01T00:00:00Z",
            "pullRequests": {{
                "pageInfo": {{"hasNextPage": {has_next}, "endCursor": {}}},
                "nodes": [{}]
            }}
        }}}}}}"#,
        optional(cursor),
        nodes.join(",")
    )
}

fn page_response(has_next: bool, cursor: Option<&str>, numbers: &[i64]) -> String {
    let nodes = numbers
        .iter()
        .map(|number| {
            pr_node(
                *number,
                "2026-01-05T18:00:00Z",
                &format!("2026-01-{:02}T09:00:00Z", 5 + number),
            )
        })
        .collect();
    page_of(has_next, cursor, nodes)
}

fn fast_pr_options() -> SyncOptions {
    SyncOptions { skip_diffs: true, pull_requests_only: true, ..Default::default() }
}

fn los_angeles_warehouse() -> Connection {
    let warehouse = open();
    warehouse
        .execute(
            "INSERT INTO config (key, value) VALUES ('timezone', 'America/Los_Angeles')
             ON CONFLICT (key) DO UPDATE SET value = excluded.value",
            [],
        )
        .unwrap();
    warehouse
}

fn issue_page_response(has_next: bool, cursor: Option<&str>, numbers: &[i64]) -> String {
    let nodes: Vec<String> = numbers
        .iter()
        .map(|number| {
            format!(
                r#"{{"id": "ISS{number}", "number": {number}, "title": "Issue {number}",
                "body": "issue body", "state": "OPEN", "stateReason": null,
                "createdAt": "2026-02-01T12:00:00Z", "updatedAt": "2026-02-{number:02}T12:00:00Z",
                "closedAt": null,
                "author": {{"login": "octocat", "__typename": "User"}},
                "milestone": {{
                    "id": "MILE1", "number": 1, "title": "v1.0", "description": null,
                    "state": "OPEN", "dueOn": null, "createdAt": "2026-01-01T00:00:00Z"
                }},
                "labels": {{"nodes": [{{
                    "id": "LAB1", "name": "bug", "color": "d73a4a", "description": ""
                }}]}},
                "assignees": {{"nodes": [{{"login": "hubot", "__typename": "User"}}]}},
                "comments": {{"nodes": [{{
                    "id": "ICOM{number}", "body": "on it",
                    "createdAt": "2026-02-02T08:00:00Z",
                    "author": {{"login": "hubot", "__typename": "User"}}
                }}]}}}}"#
            )
        })
        .collect();
    format!(
        r#"{{"data": {{"rateLimit": {BUDGET}, "repository": {{
            "nameWithOwner": "octocat/hello",
            "issues": {{
                "pageInfo": {{"hasNextPage": {has_next}, "endCursor": {}}},
                "nodes": [{}]
            }}
        }}}}}}"#,
        optional(cursor),
        nodes.join(",")
    )
}

/// One search-result node in the shape the user query selects: the PR node,
/// plus the repository it lives in.
fn search_node(number: i64, repository: &str, created_at: &str, updated_at: &str) -> String {
    format!(
        r#"{{{}, "repository": {{
            "nameWithOwner": "{repository}", "primaryLanguage": {{"name": "Rust"}},
            "isFork": false, "isPrivate": false, "defaultBranchRef": {{"name": "main"}},
            "createdAt": "2020-01-01T00:00:00Z"
        }}}}"#,
        pr_members(number, created_at, updated_at, "")
    )
}

fn search_response(total: i64, nodes: Vec<String>) -> String {
    format!(
        r#"{{"data": {{"rateLimit": {BUDGET}, "search": {{
            "issueCount": {total},
            "pageInfo": {{"hasNextPage": false, "endCursor": null}},
            "nodes": [{}]
        }}}}}}"#,
        nodes.join(",")
    )
}

/// A page of PRs, all in one repo.
fn search_page(repository: &str, numbers: &[i64]) -> String {
    let nodes = numbers
        .iter()
        .map(|number| {
            search_node(
                *number,
                repository,
                "2026-08-14T18:00:00Z",
                &format!("2026-08-{:02}T09:00:00Z", 10 + number),
            )
        })
        .collect();
    search_response(numbers.len() as i64, nodes)
}

fn fast_user_options(days: Option<u32>) -> SyncOptions {
    SyncOptions { days, skip_diffs: true, pull_requests_only: true, issues_only: false }
}

#[test]
fn syncs_two_pages_and_records_state() {
    let warehouse = open();
    let transport = Fixture::new(vec![
        Ok(page_response(true, Some("C1"), &[1, 2])),
        Ok(page_response(false, None, &[3])),
    ]);
    let mut client = Client::new(transport);
    let options = fast_pr_options();
    let mut syncer = Syncer::new(&warehouse, &mut client);
    let summary = syncer.sync_repository("octocat/hello", &options).unwrap();

    assert_eq!(summary.pull_requests_synced, 3);
    assert_eq!(summary.pages_fetched, 2);
    assert!(summary.failed.is_empty());

    let conn = &warehouse;
    let pr_count: i64 = conn
        .query_row("SELECT COUNT(*) FROM fact_pull_requests", [], |r| r.get(0))
        .unwrap();
    assert_eq!(pr_count, 3);
    let review_count: i64 = conn
        .query_row("SELECT COUNT(*) FROM fact_reviews", [], |r| r.get(0))
        .unwrap();
    assert_eq!(review_count, 3);
    let diff_count: i64 = conn
        .query_row("SELECT COUNT(*) FROM fact_file_diffs", [], |r| r.get(0))
        .unwrap();
    assert_eq!(diff_count, 3);

    // Job completed, lock released, range recorded, cursor advanced.
    let status: String = conn
        .query_row(
            "SELECT status FROM sync_jobs WHERE entity_key = 'repo:octocat/hello'",
            [],
            |r| r.get(0),
        )
        .unwrap();
    assert_eq!(status, "completed");
    let locks: i64 = conn
        .query_row("SELECT COUNT(*) FROM sync_locks", [], |r| r.get(0))
        .unwrap();
    assert_eq!(locks, 0);
    let cursor = stored_cursor(conn, "repo", "octocat/hello");
    assert_eq!(cursor.as_deref(), Some("2026-01-08T09:00:00Z"));
}

#[test]
fn incremental_rerun_stops_at_cursor() {
    let warehouse = open();
    let transport = Fixture::new(vec![
        Ok(page_response(false, None, &[1, 2])),
        // Second run returns the same (unchanged) PRs.
        Ok(page_response(false, None, &[1, 2])),
    ]);
    let mut client = Client::new(transport);
    let options = fast_pr_options();

    {
        let mut syncer = Syncer::new(&warehouse, &mut client);
        let first = syncer.sync_repository("octocat/hello", &options).unwrap();
        assert_eq!(first.pull_requests_synced, 2);
    }
    {
        let mut syncer = Syncer::new(&warehouse, &mut client);
        let second = syncer.sync_repository("octocat/hello", &options).unwrap();
        assert_eq!(second.pull_requests_synced, 0, "no-op on unchanged data");
        assert!(second.up_to_date);
    }
}

/// An item updated in the *same second* as the cursor was late to the
/// previous run's page. The stop must be strict so the boundary second is
/// re-read, otherwise that item is skipped for good: nothing short of
/// another update (which moves its timestamp) would ever surface it.
#[test]
fn same_second_late_update_is_not_lost() {
    let boundary = "2026-01-10T10:00:00Z";
    let older = "2026-01-09T10:00:00Z";
    let warehouse = open();
    let transport = Fixture::new(vec![
        // Run 1 sees only PR 1; the cursor lands exactly on `boundary`.
        Ok(page_of(
            false,
            None,
            vec![pr_node(1, "2026-01-05T18:00:00Z", boundary)],
        )),
        // Run 2: PR 2 was updated in the same second but missed page 1,
        // followed by the already-ingested PR 1 and a strictly older PR 3.
        Ok(page_of(
            false,
            None,
            vec![
                pr_node(2, "2026-01-05T18:00:00Z", boundary),
                pr_node(1, "2026-01-05T18:00:00Z", boundary),
                pr_node(3, "2026-01-05T18:00:00Z", older),
            ],
        )),
    ]);
    let mut client = Client::new(transport);
    let options = fast_pr_options();

    {
        let mut syncer = Syncer::new(&warehouse, &mut client);
        syncer.sync_repository("octocat/hello", &options).unwrap();
    }
    {
        let mut syncer = Syncer::new(&warehouse, &mut client);
        syncer.sync_repository("octocat/hello", &options).unwrap();
    }

    let conn = &warehouse;
    let numbers: Vec<i64> = conn
        .prepare("SELECT number FROM fact_pull_requests ORDER BY number")
        .unwrap()
        .query_map([], |row| row.get(0))
        .unwrap()
        .collect::<Result<_, _>>()
        .unwrap();
    assert_eq!(
        numbers,
        vec![1, 2],
        "the same-second item is picked up, and the strictly older one \
         still terminates the walk"
    );
}

/// The cursor must not move past an item that failed to persist. If it
/// does, the next run's stop condition fires before reaching that item and
/// the gap never heals.
#[test]
fn cursor_does_not_advance_past_a_failed_upsert() {
    let warehouse = open();
    // Newest-first, as GitHub serves it. PR 9 has an unparseable
    // `createdAt`, so its upsert fails; PR 8 is fine.
    let transport = Fixture::new(vec![Ok(page_of(
        false,
        None,
        vec![
            pr_node(9, "not-a-timestamp", "2026-01-20T10:00:00Z"),
            pr_node(8, "2026-01-05T18:00:00Z", "2026-01-19T10:00:00Z"),
        ],
    ))]);
    let mut client = Client::new(transport);
    let options = fast_pr_options();
    let mut syncer = Syncer::new(&warehouse, &mut client);
    let summary = syncer.sync_repository("octocat/hello", &options).unwrap();

    assert_eq!(summary.pull_requests_synced, 1);
    assert_eq!(summary.failed.len(), 1, "PR 9 is reported as failed");

    let cursor =
        stored_cursor(&warehouse, "repo", "octocat/hello");
    assert_eq!(
        cursor.as_deref(),
        Some("2026-01-19T10:00:00Z"),
        "the watermark stays below the failed item so it is retried"
    );
}

/// Coverage is recorded in the warehouse's own calendar and stops at the
/// last completed day there. The injected instant is evening in Los
/// Angeles, which is already the next day in UTC — so a UTC-derived
/// "today" would seal two days that are not finished locally.
#[test]
fn recorded_coverage_stops_at_the_last_complete_local_day() {
    let warehouse = los_angeles_warehouse();
    let transport = Fixture::new(vec![Ok(page_response(false, None, &[1]))]);
    let mut client = Client::new(transport);
    let options = fast_pr_options();

    // 2026-08-16 20:00 PDT.
    let instant = evening_instant();
    let mut syncer = Syncer::new(&warehouse, &mut client).as_of(instant);
    syncer.sync_repository("octocat/hello", &options).unwrap();

    let (start, end): (String, String) = warehouse
        .query_row(
            "SELECT start_date, end_date FROM synced_ranges
             WHERE entity_key = 'repo:octocat/hello'",
            [],
            |row| Ok((row.get(0)?, row.get(1)?)),
        )
        .unwrap();
    assert_eq!(
        end, "2026-08-15",
        "neither the running local day (08-16) nor the UTC day (08-17)"
    );
    // Initial window: 90 days back from the local day, 2026-08-16.
    assert_eq!(start, "2026-05-18");
}

#[test]
fn syncs_issues_with_labels_and_comments() {
    let warehouse = open();
    let transport = Fixture::new(vec![
        Ok(issue_page_response(true, Some("IC1"), &[1, 2])),
        Ok(issue_page_response(false, None, &[3])),
    ]);
    let mut client = Client::new(transport);
    let options = SyncOptions {
        issues_only: true,
        ..Default::default()
    };
    let mut syncer = Syncer::new(&warehouse, &mut client);
    let summary = syncer.sync_repository("octocat/hello", &options).unwrap();

    assert_eq!(summary.issues_synced, 3);
    assert_eq!(summary.pages_fetched, 2);

    let conn = &warehouse;
    let issue_count: i64 = conn
        .query_row("SELECT COUNT(*) FROM issues", [], |r| r.get(0))
        .unwrap();
    assert_eq!(issue_count, 3);
    let label_links: i64 = conn
        .query_row("SELECT COUNT(*) FROM issue_labels", [], |r| r.get(0))
        .unwrap();
    assert_eq!(label_links, 3);
    let assignees: i64 = conn
        .query_row("SELECT COUNT(*) FROM issue_assignees", [], |r| r.get(0))
        .unwrap();
    assert_eq!(assignees, 3);
    let comments: i64 = conn
        .query_row(
            "SELECT COUNT(*) FROM fact_issue_comments WHERE parent_type = 'issue'",
            [],
            |r| r.get(0),
        )
        .unwrap();
    assert_eq!(comments, 3);
    let milestones: i64 = conn
        .query_row("SELECT COUNT(*) FROM milestones", [], |r| r.get(0))
        .unwrap();
    assert_eq!(milestones, 1);
    let fts: i64 = conn
        .query_row(
            "SELECT COUNT(*) FROM issues_fts WHERE issues_fts MATCH 'ssue'",
            [],
            |r| r.get(0),
        )
        .unwrap();
    assert_eq!(fts, 3, "issues_fts populated via trigger");
}

/// The whole point of the feature: a monitored user's PRs and reviews land
/// in the warehouse through the same pipeline a repository sync uses, and
/// the source's `last_sync_at` finally moves.
#[test]
fn syncs_a_user_across_repositories() {
    let warehouse = los_angeles_warehouse();
    execute(&warehouse, &add_user("octocat")).unwrap();
    let transport = Fixture::new(vec![
        // author: two PRs in a repo nobody monitors
        Ok(search_page("acme/widgets", &[1, 2])),
        // reviewed-by: one PR in a third-party repo
        Ok(search_page("other/thing", &[3])),
    ]);
    let mut client = Client::new(transport);
    let mut syncer = Syncer::new(&warehouse, &mut client).as_of(evening_instant());
    let summary = syncer
        .sync_user("octocat", &fast_user_options(Some(1)))
        .unwrap();

    assert_eq!(summary.pull_requests_synced, 3);
    assert_eq!(summary.pages_fetched, 2, "one search per role");
    assert!(summary.failed.is_empty());
    assert!(summary.notes.is_empty());

    let conn = &warehouse;
    let prs: i64 = conn
        .query_row("SELECT COUNT(*) FROM fact_pull_requests", [], |r| r.get(0))
        .unwrap();
    assert_eq!(prs, 3);
    let reviews: i64 = conn
        .query_row("SELECT COUNT(*) FROM fact_reviews", [], |r| r.get(0))
        .unwrap();
    assert_eq!(
        reviews, 3,
        "nested reviews ingest exactly as on the repo path"
    );

    // Both repositories exist as dimensions...
    let repos: Vec<String> = conn
        .prepare("SELECT repo_key FROM dim_repositories ORDER BY repo_key")
        .unwrap()
        .query_map([], |row| row.get(0))
        .unwrap()
        .collect::<Result<_, _>>()
        .unwrap();
    assert_eq!(repos, vec!["acme/widgets", "other/thing"]);

    // ...and neither was promoted into the monitored set. Syncing a person
    // says nothing about wanting their repositories tracked.
    let monitored: i64 = conn
        .query_row("SELECT COUNT(*) FROM monitored_repos", [], |r| r.get(0))
        .unwrap();
    assert_eq!(monitored, 0);

    // The source stamp advances, which is what `monitor list` reads.
    let last_sync: Option<String> = conn
        .query_row(
            "SELECT last_sync_at FROM monitored_users WHERE login = 'octocat'",
            [],
            |row| row.get(0),
        )
        .unwrap();
    assert!(last_sync.is_some(), "last_sync_at no longer stays NULL");

    // Coverage and job state are recorded under the user's own entity key.
    let (start, end): (String, String) = conn
        .query_row(
            "SELECT start_date, end_date FROM synced_ranges WHERE entity_key = 'user:octocat'",
            [],
            |row| Ok((row.get(0)?, row.get(1)?)),
        )
        .unwrap();
    assert_eq!((start.as_str(), end.as_str()), ("2026-08-15", "2026-08-15"));
    let status: String = conn
        .query_row(
            "SELECT status FROM sync_jobs WHERE entity_key = 'user:octocat'",
            [],
            |row| row.get(0),
        )
        .unwrap();
    assert_eq!(status, "completed");
    let locks: i64 = conn
        .query_row("SELECT COUNT(*) FROM sync_locks", [], |r| r.get(0))
        .unwrap();
    assert_eq!(locks, 0);
}

/// Authored and reviewed work are disjoint result sets, so one watermark
/// cannot serve both: whichever side moved more recently would carry the
/// cursor past items the other side has not fetched.
#[test]
fn each_role_keeps_its_own_watermark() {
    let warehouse = los_angeles_warehouse();
    let transport = Fixture::new(vec![
        Ok(search_response(
            1,
            vec![search_node(
                1,
                "acme/widgets",
                "2026-08-14T18:00:00Z",
                "2026-08-15T09:00:00Z",
            )],
        )),
        Ok(search_response(
            1,
            vec![search_node(
                2,
                "acme/widgets",
                "2026-08-14T18:00:00Z",
                "2026-08-12T09:00:00Z",
            )],
        )),
    ]);
    let mut client = Client::new(transport);
    let mut syncer = Syncer::new(&warehouse, &mut client).as_of(evening_instant());
    syncer
        .sync_user("octocat", &fast_user_options(Some(1)))
        .unwrap();

    let conn = &warehouse;
    assert_eq!(
        stored_cursor(conn, "user", "octocat")
            .as_deref(),
        Some("2026-08-15T09:00:00Z")
    );
    assert_eq!(
        stored_cursor(conn, "user_reviews", "octocat")
            .as_deref(),
        Some("2026-08-12T09:00:00Z")
    );
}

/// Once a user has coverage and a watermark, a re-run walks updated-desc and
/// stops at the first strictly-older item instead of re-reading history.
#[test]
fn user_rerun_stops_at_the_watermark() {
    let warehouse = los_angeles_warehouse();
    // Newest-first within the page, as `sort:updated-desc` serves it.
    let fresh = search_response(
        2,
        vec![
            search_node(
                2,
                "acme/widgets",
                "2026-08-14T18:00:00Z",
                "2026-08-15T09:00:00Z",
            ),
            search_node(
                1,
                "acme/widgets",
                "2026-08-13T18:00:00Z",
                "2026-08-14T09:00:00Z",
            ),
        ],
    );
    let transport = Fixture::new(vec![
        Ok(fresh.clone()), // run 1, author
        Ok(fresh.clone()), // run 1, reviewed-by
        Ok(fresh.clone()), // run 2, author — everything at or below cursor
        Ok(fresh.clone()), // run 2, reviewed-by
    ]);
    let mut client = Client::new(transport);

    {
        let mut syncer =
            Syncer::new(&warehouse, &mut client).as_of(evening_instant());
        let first = syncer
            .sync_user("octocat", &fast_user_options(Some(1)))
            .unwrap();
        assert_eq!(first.pull_requests_synced, 4, "both roles, both PRs");
    }
    {
        // No --days: coverage exists and both cursors are set, so this run
        // is incremental — one unwindowed search per role.
        let mut syncer =
            Syncer::new(&warehouse, &mut client).as_of(evening_instant());
        let second = syncer
            .sync_user("octocat", &fast_user_options(None))
            .unwrap();
        assert_eq!(
            second.pull_requests_synced, 2,
            "the boundary-second item is re-read; the strictly older one stops the walk"
        );
        assert_eq!(
            second.pages_fetched, 2,
            "no date windowing on an incremental run"
        );
    }
}

/// Same invariant the repository path holds: a watermark that moves past an
/// item the warehouse failed to store turns a retryable failure into a
/// permanent hole, because the next run's stop fires before reaching it.
#[test]
fn user_cursor_does_not_advance_past_a_failed_upsert() {
    let warehouse = los_angeles_warehouse();
    let transport = Fixture::new(vec![
        Ok(search_response(
            2,
            vec![
                // Newest, and unstorable: `createdAt` will not parse.
                search_node(9, "acme/widgets", "not-a-timestamp", "2026-08-15T10:00:00Z"),
                search_node(
                    8,
                    "acme/widgets",
                    "2026-08-14T18:00:00Z",
                    "2026-08-14T10:00:00Z",
                ),
            ],
        )),
        Ok(search_response(0, vec![])),
    ]);
    let mut client = Client::new(transport);
    let mut syncer = Syncer::new(&warehouse, &mut client).as_of(evening_instant());
    let summary = syncer
        .sync_user("octocat", &fast_user_options(Some(1)))
        .unwrap();

    assert_eq!(summary.pull_requests_synced, 1);
    assert_eq!(summary.failed.len(), 1);
    assert_eq!(
        stored_cursor(&warehouse, "user", "octocat")
            .as_deref(),
        Some("2026-08-14T10:00:00Z"),
        "the watermark stays below the failed item so the next run retries it"
    );
}

/// Search serves at most 1,000 results per query however many it reports
/// matching. A window over the cap is bisected until each half fits, so a
/// prolific contributor's backfill is complete rather than truncated.
#[test]
fn a_window_over_the_result_cap_is_split() {
    let warehouse = los_angeles_warehouse();
    let transport = Fixture::new(vec![
        // author, 2026-08-13..2026-08-15: more matches than search serves
        Ok(search_response(
            2500,
            vec![search_node(
                1,
                "acme/widgets",
                "2026-08-14T18:00:00Z",
                "2026-08-15T09:00:00Z",
            )],
        )),
        // first half (08-13..08-14) and second half (08-15..08-15)
        Ok(search_page("acme/widgets", &[1])),
        Ok(search_page("acme/widgets", &[2])),
        // reviewed-by, whole window, under the cap
        Ok(search_page("acme/widgets", &[3])),
    ]);
    let mut client = Client::new(transport);
    let mut syncer = Syncer::new(&warehouse, &mut client).as_of(evening_instant());
    let summary = syncer
        .sync_user("octocat", &fast_user_options(Some(3)))
        .unwrap();

    assert_eq!(summary.pages_fetched, 4);
    assert_eq!(
        summary.pull_requests_synced, 3,
        "only the split halves are ingested; the over-cap query is abandoned before work"
    );
    assert!(
        summary.notes.is_empty(),
        "a window that could be narrowed needs no caveat"
    );
}

/// When the window is already a single day there is nothing left to narrow.
/// The shortfall is reported rather than passed off as full coverage.
#[test]
fn an_unsplittable_over_cap_window_is_reported() {
    let warehouse = los_angeles_warehouse();
    let transport = Fixture::new(vec![
        Ok(search_response(
            4200,
            vec![search_node(
                1,
                "acme/widgets",
                "2026-08-14T18:00:00Z",
                "2026-08-15T09:00:00Z",
            )],
        )),
        Ok(search_response(0, vec![])),
    ]);
    let mut client = Client::new(transport);
    let mut syncer = Syncer::new(&warehouse, &mut client).as_of(evening_instant());
    let summary = syncer
        .sync_user("octocat", &fast_user_options(Some(1)))
        .unwrap();

    assert_eq!(summary.notes.len(), 1);
    let note = &summary.notes[0];
    assert!(note.contains("4200"), "the match count is named: {note}");
    assert!(note.contains("1000"), "so is the cap: {note}");
}

/// `--issues-only` has no user-scoped counterpart. Returning zero quietly
/// would read as "this user has no issues"; the run says what it skipped.
#[test]
fn issues_only_on_a_user_reports_instead_of_no_opping() {
    let warehouse = los_angeles_warehouse();
    let transport = Fixture::new(vec![]);
    let mut client = Client::new(transport);
    let mut syncer = Syncer::new(&warehouse, &mut client).as_of(evening_instant());
    let summary = syncer
        .sync_user(
            "octocat",
            &SyncOptions {
                issues_only: true,
                ..Default::default()
            },
        )
        .unwrap();

    assert_eq!(summary.pages_fetched, 0);
    assert_eq!(summary.notes.len(), 1);
    assert!(summary.notes[0].contains("--issues-only"));
}

/// A namespaced spelling reaches the same row `monitor add-user` wrote.
#[test]
fn user_sync_accepts_a_namespaced_login() {
    let warehouse = los_angeles_warehouse();
    execute(&warehouse, &add_user("octocat")).unwrap();
    let transport = Fixture::new(vec![
        Ok(search_page("acme/widgets", &[1])),
        Ok(search_response(0, vec![])),
    ]);
    let mut client = Client::new(transport);
    let mut syncer = Syncer::new(&warehouse, &mut client).as_of(evening_instant());
    syncer
        .sync_user("user:OctoCat", &fast_user_options(Some(1)))
        .unwrap();

    let last_sync: Option<String> = warehouse
        .query_row(
            "SELECT last_sync_at FROM monitored_users WHERE login = 'octocat'",
            [],
            |row| row.get(0),
        )
        .unwrap();
    assert!(last_sync.is_some());
}

/// A user with thousands of lifetime matches is ordinary. An incremental
/// walk that reaches its watermark has fetched everything that changed, so
/// the lifetime match count is not a shortfall and must not be reported as
/// one — the live case that produced this test was a real login whose
/// `reviewed-by:` query matches 1,122 items while only five had changed.
#[test]
fn an_incremental_walk_that_reaches_its_watermark_reports_nothing() {
    let warehouse = los_angeles_warehouse();
    let seed = search_response(
        1,
        vec![search_node(
            1,
            "acme/widgets",
            "2026-08-14T18:00:00Z",
            "2026-08-15T09:00:00Z",
        )],
    );
    // Run 2 reports a huge lifetime total but its first node is already
    // below the watermark, so the walk stops on the first item.
    let over_cap_but_converging = search_response(
        1122,
        vec![search_node(
            1,
            "acme/widgets",
            "2026-08-01T18:00:00Z",
            "2026-08-02T09:00:00Z",
        )],
    );
    let transport = Fixture::new(vec![
        Ok(seed.clone()),
        Ok(seed.clone()),
        Ok(over_cap_but_converging.clone()),
        Ok(over_cap_but_converging.clone()),
    ]);
    let mut client = Client::new(transport);

    {
        let mut syncer =
            Syncer::new(&warehouse, &mut client).as_of(evening_instant());
        syncer
            .sync_user("octocat", &fast_user_options(Some(1)))
            .unwrap();
    }
    let mut syncer = Syncer::new(&warehouse, &mut client).as_of(evening_instant());
    let second = syncer
        .sync_user("octocat", &fast_user_options(None))
        .unwrap();

    assert_eq!(second.pull_requests_synced, 0);
    assert!(
        second.notes.is_empty(),
        "reaching the watermark is convergence, whatever the match count: {:?}",
        second.notes
    );
}

/// The case that *is* a shortfall: an incremental walk exhausts the pages
/// search will serve without ever reaching its watermark, so the items
/// between the cap and the watermark are still missing. The run says so and
/// names the command that closes the gap.
#[test]
fn an_incremental_walk_that_runs_out_before_its_watermark_reports_the_gap() {
    let warehouse = los_angeles_warehouse();
    let seed = search_response(
        1,
        vec![search_node(
            1,
            "acme/widgets",
            "2026-08-14T18:00:00Z",
            "2026-08-10T09:00:00Z",
        )],
    );
    // Everything on run 2 is newer than the watermark, and the page reports
    // more matches than search serves: pagination ends first.
    let never_reaches_watermark = search_response(
        5000,
        vec![search_node(
            2,
            "acme/widgets",
            "2026-08-14T18:00:00Z",
            "2026-08-15T09:00:00Z",
        )],
    );
    let transport = Fixture::new(vec![
        Ok(seed.clone()),
        Ok(seed.clone()),
        Ok(never_reaches_watermark.clone()),
        Ok(never_reaches_watermark.clone()),
    ]);
    let mut client = Client::new(transport);

    {
        let mut syncer =
            Syncer::new(&warehouse, &mut client).as_of(evening_instant());
        syncer
            .sync_user("octocat", &fast_user_options(Some(1)))
            .unwrap();
    }
    let mut syncer = Syncer::new(&warehouse, &mut client).as_of(evening_instant());
    let second = syncer
        .sync_user("octocat", &fast_user_options(None))
        .unwrap();

    assert_eq!(second.notes.len(), 2, "one per role");
    assert!(
        second.notes[0].contains("--days"),
        "the note names the fix: {}",
        second.notes[0]
    );
}

#[test]
fn month_windows_clip_both_ends() {
    let day = |text: &str| Date::parse(text).unwrap();
    assert_eq!(
        month_windows(day("2026-01-15"), day("2026-03-10")),
        vec![
            (day("2026-01-15"), day("2026-01-31")),
            (day("2026-02-01"), day("2026-02-28")),
            (day("2026-03-01"), day("2026-03-10")),
        ]
    );
    assert_eq!(
        month_windows(day("2026-06-05"), day("2026-06-05")),
        vec![(day("2026-06-05"), day("2026-06-05"))]
    );
    assert!(month_windows(day("2026-06-05"), day("2026-06-04")).is_empty());
    // A leap February and a year boundary both land on real month ends.
    assert_eq!(
        month_windows(day("2024-02-01"), day("2024-02-29")),
        vec![(day("2024-02-01"), day("2024-02-29"))]
    );
    assert_eq!(
        month_windows(day("2025-12-20"), day("2026-01-05")),
        vec![
            (day("2025-12-20"), day("2025-12-31")),
            (day("2026-01-01"), day("2026-01-05")),
        ]
    );
}

/// The watermark stays at a failed item even where a newer one landed, so that
/// the next run reaches it again.
#[test]
fn a_newer_item_does_not_carry_the_cursor_past_a_failed_one() {
    let warehouse = open();
    let transport = Fixture::new(vec![
        Ok(page_of(
            false,
            None,
            vec![
                pr_node(10, "2026-01-05T18:00:00Z", "2026-01-21T10:00:00Z"),
                pr_node(9, "not-a-timestamp", "2026-01-20T10:00:00Z"),
                pr_node(8, "2026-01-05T18:00:00Z", "2026-01-19T10:00:00Z"),
            ],
        )),
        Ok(page_of(
            false,
            None,
            vec![
                pr_node(10, "2026-01-05T18:00:00Z", "2026-01-21T10:00:00Z"),
                pr_node(9, "2026-01-05T18:00:00Z", "2026-01-20T10:00:00Z"),
                pr_node(8, "2026-01-05T18:00:00Z", "2026-01-19T10:00:00Z"),
            ],
        )),
    ]);
    let mut client = Client::new(transport);
    let options = fast_pr_options();
    let first = Syncer::new(&warehouse, &mut client)
        .sync_repository("octocat/hello", &options)
        .unwrap();
    assert_eq!(first.pull_requests_synced, 2);
    assert_eq!(
        stored_cursor(&warehouse, "repo", "octocat/hello").as_deref(),
        Some("2026-01-20T10:00:00Z")
    );
    let second = Syncer::new(&warehouse, &mut client)
        .sync_repository("octocat/hello", &options)
        .unwrap();
    assert_eq!(second.pull_requests_synced, 2, "the failed item is read again");
    assert_eq!(
        stored_cursor(&warehouse, "repo", "octocat/hello").as_deref(),
        Some("2026-01-21T10:00:00Z")
    );
}

#[test]
fn a_failing_page_is_asked_for_in_smaller_pieces() {
    let warehouse = open();
    let overflow = || Err(Error::GitHubApi("stream error".to_string()));
    let transport = Fixture::new(vec![
        overflow(),
        overflow(),
        Ok(page_response(false, None, &[1])),
    ]);
    let mut client = Client::new(transport);
    let summary = Syncer::new(&warehouse, &mut client)
        .sync_repository("octocat/hello", &fast_pr_options())
        .unwrap();
    assert_eq!(summary.pull_requests_synced, 1);
    let sizes: Vec<bool> = ["first: 25,", "first: 12,", "first: 6,"]
        .iter()
        .zip(&client.transport.calls)
        .map(|(size, call)| call.iter().any(|argument| argument.contains(size)))
        .collect();
    assert_eq!(sizes, vec![true, true, true]);
}

#[test]
fn a_page_that_never_comes_fails_the_job() {
    let warehouse = open();
    let mut client = Client::new(Fixture::new(vec![]));
    let outcome = Syncer::new(&warehouse, &mut client)
        .sync_repository("octocat/hello", &fast_pr_options());
    assert!(matches!(outcome, Err(Error::GitHubApi(_))));
    assert_eq!(client.transport.calls.len(), 5, "25, 12, 6, 3 and 1 at a time");
    let (status, locks): (String, i64) = warehouse
        .query_row(
            "SELECT status, (SELECT COUNT(*) FROM sync_locks) FROM sync_jobs",
            [],
            |row| Ok((row.get(0)?, row.get(1)?)),
        )
        .unwrap();
    assert_eq!((status.as_str(), locks), ("failed", 0));
}

#[test]
fn a_name_without_an_owner_is_refused() {
    let warehouse = open();
    let mut client = Client::new(Fixture::new(vec![]));
    let outcome = Syncer::new(&warehouse, &mut client).sync_repository("hello", &fast_pr_options());
    assert_eq!(
        outcome.unwrap_err(),
        Error::InvalidArgument("expected owner/name, got 'hello'".to_string())
    );
}

#[test]
fn patches_are_fetched_unless_they_are_skipped() {
    let warehouse = open();
    let transport = Fixture::new(vec![
        Ok(page_response(false, None, &[1])),
        Ok(r#"[{"filename": "src/lib.rs", "patch": "@@ -1 +1 @@"}]"#.to_string()),
    ]);
    let mut client = Client::new(transport);
    let options = SyncOptions { pull_requests_only: true, ..Default::default() };
    Syncer::new(&warehouse, &mut client)
        .sync_repository("octocat/hello", &options)
        .unwrap();
    assert_eq!(
        client.transport.calls[1],
        vec!["api", "repos/octocat/hello/pulls/1/files?per_page=100"]
    );
    let patch: Option<String> = warehouse
        .query_row("SELECT patch FROM fact_file_diffs", [], |row| row.get(0))
        .unwrap();
    assert_eq!(patch.as_deref(), Some("@@ -1 +1 @@"));
}
