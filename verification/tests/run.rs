use githubdw::clock::Instant;
use githubdw::error::Error;
use githubdw::fetch::user_search::UserRole;
use githubdw::json::Json;
use githubdw::run::{is_anchor, Course, Next, RunTurn, Settings};
use githubdw::sql::SqlValue;
use githubdw::storage::sync_state_repository::{
    RangeRow, COMPLETE_JOB_SQL, DELETE_LOCK_SQL, FAIL_JOB_SQL, INSERT_LOCK_SQL,
    START_JOB_SQL,
};
use githubdw::sync::SyncOptions;
use githubdw::walk::{repository_legs, user_legs, Leg, Request};

const CLOCK: &str = "2026-08-17T03:00:00+00:00";

fn now() -> Instant {
    Instant::parse(CLOCK).unwrap()
}

fn settings() -> Settings {
    Settings {
        timezone: Some("UTC".to_string()),
        core_hours_start: None,
        core_hours_end: None,
        bot_login_suffix: None,
    }
}

fn options(days: Option<u32>) -> SyncOptions {
    SyncOptions { days, ..SyncOptions::default() }
}

fn repository(name: &str, options: SyncOptions) -> Course {
    Course::repository(name, options, settings(), now())
}

fn proceed(course: Course) -> RunTurn {
    match course.open(None, &now(), CLOCK).next {
        Next::Proceed(state) => state.proceed(CLOCK),
        other => panic!("expected the job to be open, got {other:?}"),
    }
}

fn sqls(turn: &RunTurn) -> Vec<&str> {
    turn.statements.iter().map(|statement| statement.sql.as_str()).collect()
}

fn text(value: &str) -> SqlValue {
    SqlValue::Text(value.to_string())
}

fn failure(turn: RunTurn) -> Error {
    match turn.next {
        Next::Done(outcome) => outcome.unwrap_err(),
        other => panic!("expected the run to be over, got {other:?}"),
    }
}

/// The first request of a run.
fn first_fetch(course: Course) -> (Request, githubdw::run::Walking) {
    let turn = match proceed(course).next {
        Next::ReadCursor(_, state) => state.read(None, CLOCK),
        other => panic!("expected a cursor to be read, got {other:?}"),
    };
    match turn.next {
        Next::Fetch(request, state) => (request, state),
        other => panic!("expected a page to be fetched, got {other:?}"),
    }
}

fn object(members: Vec<(&str, Json)>) -> Json {
    Json::Object(members.into_iter().map(|(name, value)| (name.to_string(), value)).collect())
}

fn string(value: &str) -> Json {
    Json::Text(value.to_string())
}

fn pull_request(number: i64, updated: &str) -> Json {
    object(vec![
        ("number", Json::Number(Some(number))),
        ("state", string("OPEN")),
        ("createdAt", string("2026-08-01T00:00:00Z")),
        ("updatedAt", string(updated)),
        ("title", string("A change")),
    ])
}

fn page(nodes: Vec<Json>) -> Json {
    object(vec![(
        "repository",
        object(vec![
            ("nameWithOwner", string("Octo/Hello")),
            (
                "pullRequests",
                object(vec![
                    ("pageInfo", object(vec![("hasNextPage", Json::Bool(false))])),
                    ("nodes", Json::Array(nodes)),
                ]),
            ),
        ]),
    )])
}

#[test]
fn a_free_source_is_locked_and_its_job_is_opened() {
    let course = repository("Octo/Hello", options(None));
    assert_eq!(course.read_lock().params, vec![text("repo:octo/hello")]);
    let turn = course.open(None, &now(), CLOCK);
    assert_eq!(sqls(&turn), vec![INSERT_LOCK_SQL, START_JOB_SQL]);
    assert_eq!(turn.statements[0].params, vec![text("repo:octo/hello"), text(CLOCK)]);
    assert!(matches!(turn.next, Next::Proceed(_)));
}

#[test]
fn a_busy_source_is_left_alone() {
    let turn =
        repository("octo/hello", options(None)).open(Some("2026-08-17T02:45:00Z"), &now(), CLOCK);
    assert!(turn.statements.is_empty());
    assert_eq!(failure(turn), Error::SyncInProgress("repo:octo/hello".to_string()));
}

#[test]
fn a_stale_lock_is_replaced() {
    let turn =
        repository("octo/hello", options(None)).open(Some("2026-08-17T02:30:00Z"), &now(), CLOCK);
    assert_eq!(sqls(&turn), vec![DELETE_LOCK_SQL, INSERT_LOCK_SQL, START_JOB_SQL]);
}

#[test]
fn a_failed_fetch_asks_for_half_the_page() {
    let (request, state) = first_fetch(repository("octo/hello", options(Some(7))));
    assert!(request.query.contains("pullRequests(first: 25,"), "{}", request.query);
    assert_eq!(
        request.variables,
        vec![
            ("owner".to_string(), "octo".to_string()),
            ("name".to_string(), "hello".to_string()),
        ]
    );
    let mut state = state;
    for size in ["12", "6", "3", "1"] {
        let turn = state.fetch_failed(Error::GitHubApi("too heavy".to_string()), CLOCK);
        assert!(turn.statements.is_empty());
        state = match turn.next {
            Next::Fetch(smaller, state) => {
                let wanted = format!("pullRequests(first: {size},");
                assert!(smaller.query.contains(&wanted), "{}", smaller.query);
                assert_eq!(smaller.variables, request.variables);
                state
            }
            other => panic!("expected another try, got {other:?}"),
        };
    }
    let turn = state.fetch_failed(Error::GitHubApi("too heavy".to_string()), CLOCK);
    assert_eq!(sqls(&turn), vec![FAIL_JOB_SQL, DELETE_LOCK_SQL]);
    assert_eq!(failure(turn), Error::GitHubApi("too heavy".to_string()));
}

#[test]
fn an_issue_page_is_not_made_smaller() {
    let only_issues = SyncOptions { issues_only: true, ..options(Some(7)) };
    let (_, state) = first_fetch(repository("octo/hello", only_issues));
    let turn = state.fetch_failed(Error::GitHubApi("too heavy".to_string()), CLOCK);
    assert_eq!(failure(turn), Error::GitHubApi("too heavy".to_string()));
}

#[test]
fn a_failed_item_is_counted_and_holds_the_cursor_back() {
    let (_, state) = first_fetch(repository("octo/hello", options(Some(7))));
    assert!(state.can_count());
    let nodes = vec![
        pull_request(2, "2026-08-12T00:00:00Z"),
        pull_request(1, "2026-08-10T00:00:00Z"),
    ];
    let turn = state.fetched(&page(nodes), CLOCK);
    assert_eq!(turn.statements.len(), 1);
    let turn = match turn.next {
        Next::Store(job, state) => {
            assert_eq!(job.item_id, "octo/hello#2");
            assert_eq!(job.updated.as_deref(), Some("2026-08-12T00:00:00Z"));
            assert_eq!(job.patches, None);
            assert!(job.batch.failure.is_none());
            state.stored(None, CLOCK)
        }
        other => panic!("expected an item, got {other:?}"),
    };
    let turn = match turn.next {
        Next::Store(job, state) => {
            assert_eq!(job.item_id, "octo/hello#1");
            state.stored(Some("disk full"), CLOCK)
        }
        other => panic!("expected an item, got {other:?}"),
    };
    assert_eq!(
        turn.statements[0].params,
        vec![
            text("repo:octo/hello"),
            SqlValue::Integer(2),
            text("octo/hello#1"),
            SqlValue::Integer(1),
            SqlValue::Integer(0),
            SqlValue::Integer(1),
        ]
    );
    assert_eq!(
        turn.statements[1].sql,
        "INSERT INTO sync_metadata (source_type, source_id, last_sync_at, last_updated_cursor) \
         VALUES (?1, ?2, ?3, ?4) ON CONFLICT (source_type, source_id) DO UPDATE SET \
         last_sync_at = excluded.last_sync_at, \
         last_updated_cursor = COALESCE(\
         MAX(excluded.last_updated_cursor, sync_metadata.last_updated_cursor), \
         sync_metadata.last_updated_cursor, excluded.last_updated_cursor)"
    );
    assert_eq!(turn.statements[1].params[3], text("2026-08-10T00:00:00Z"));
    assert!(matches!(turn.next, Next::ReadCursor(_, _)));
}

#[test]
fn an_unreadable_page_fails_the_run() {
    let (_, state) = first_fetch(repository("octo/hello", options(Some(7))));
    let turn = state.fetched(&Json::Null, CLOCK);
    assert_eq!(sqls(&turn), vec![FAIL_JOB_SQL, DELETE_LOCK_SQL]);
    assert_eq!(
        failure(turn),
        Error::GitHubApi("repository not found in response".to_string())
    );
}

#[test]
fn a_name_without_an_owner_fails_the_job() {
    let turn = proceed(repository("hello", options(None)));
    assert_eq!(sqls(&turn), vec![FAIL_JOB_SQL, DELETE_LOCK_SQL]);
    assert_eq!(
        failure(turn),
        Error::InvalidArgument("expected owner/name, got 'hello'".to_string())
    );
}

#[test]
fn an_unknown_zone_fails_the_job() {
    let odd = Settings { timezone: Some("Mars/Olympus".to_string()), ..settings() };
    let turn = proceed(Course::user("alice", options(None), odd, now()));
    assert_eq!(sqls(&turn), vec![FAIL_JOB_SQL, DELETE_LOCK_SQL]);
    assert_eq!(failure(turn), Error::Config("invalid timezone 'Mars/Olympus'".to_string()));
}

#[test]
fn an_unreadable_extent_fails_the_job() {
    let turn = match proceed(repository("octo/hello", options(None))).next {
        Next::ReadExtent(_, state) => {
            state.read(Some("soon".to_string()), Some("2026-08-01".to_string()), CLOCK)
        }
        other => panic!("expected the extent to be read, got {other:?}"),
    };
    assert!(matches!(failure(turn), Error::InvalidArgument(_)));
}

#[test]
fn a_window_beyond_the_calendar_is_told_apart() {
    let turn = proceed(repository("octo/hello", options(Some(u32::MAX))));
    assert!(turn.statements.is_empty());
    assert!(matches!(turn.next, Next::OutOfCalendar));
}

#[test]
fn an_issues_only_user_run_closes_with_a_note() {
    let only_issues = SyncOptions { issues_only: true, ..options(None) };
    let turn = proceed(Course::user("Alice", only_issues, settings(), now()));
    assert_eq!(sqls(&turn), vec![COMPLETE_JOB_SQL, DELETE_LOCK_SQL]);
    match turn.next {
        Next::Done(Ok(summary)) => {
            assert_eq!(summary.notes.len(), 1);
            assert!(summary.notes[0].starts_with("alice: --issues-only"), "{}", summary.notes[0]);
        }
        other => panic!("expected the run to be over, got {other:?}"),
    }
}

#[test]
fn nothing_is_cleaned_up_before_the_job_is_open() {
    let turn = repository("octo/hello", options(None)).open(None, &now(), CLOCK);
    let turn = turn.next.failed(Error::Database("locked".to_string()), CLOCK);
    assert!(turn.statements.is_empty());
    assert_eq!(failure(turn), Error::Database("locked".to_string()));
}

#[test]
fn a_broken_run_fails_its_job_and_releases_its_lock() {
    let turn = proceed(repository("octo/hello", options(Some(7))));
    let turn = turn.next.failed(Error::Database("disk full".to_string()), CLOCK);
    assert_eq!(sqls(&turn), vec![FAIL_JOB_SQL, DELETE_LOCK_SQL]);
    assert_eq!(
        turn.statements[0].params,
        vec![text("repo:octo/hello"), text(CLOCK), text("database error: disk full")]
    );
}

#[test]
fn the_window_is_recorded_behind_the_last_walk() {
    let neither = SyncOptions {
        issues_only: true,
        pull_requests_only: true,
        ..options(Some(7))
    };
    let turn = match proceed(repository("octo/hello", neither)).next {
        Next::ReadRanges(statement, state) => {
            assert_eq!(
                statement.params,
                vec![text("repo:octo/hello"), text("2026-08-17"), text("2026-08-09")]
            );
            let rows = vec![RangeRow {
                start_date: "2026-08-01".to_string(),
                end_date: "2026-08-09".to_string(),
                item_count: 3,
            }];
            assert!(state.can_record(&rows));
            state.read(&rows, CLOCK)
        }
        other => panic!("expected the ranges to be read, got {other:?}"),
    };
    let stored = &turn.statements[1].params;
    assert_eq!(stored[1], text("2026-08-01"));
    assert_eq!(stored[2], text("2026-08-16"));
    assert_eq!(stored[4], SqlValue::Integer(3));
    let turn = match turn.next {
        Next::Close(state) => state.close(CLOCK),
        other => panic!("expected the job to be closed, got {other:?}"),
    };
    assert_eq!(sqls(&turn), vec![COMPLETE_JOB_SQL, DELETE_LOCK_SQL]);
}

#[test]
fn a_range_that_cannot_be_read_fails_the_run() {
    let neither = SyncOptions {
        issues_only: true,
        pull_requests_only: true,
        ..options(Some(7))
    };
    let turn = match proceed(repository("octo/hello", neither)).next {
        Next::ReadRanges(_, state) => {
            let rows = vec![RangeRow {
                start_date: "soon".to_string(),
                end_date: "2026-08-09".to_string(),
                item_count: i64::MAX,
            }];
            assert!(state.can_record(&rows));
            state.read(&rows, CLOCK)
        }
        other => panic!("expected the ranges to be read, got {other:?}"),
    };
    let turn = match turn.next {
        Next::Close(state) => state.close(CLOCK),
        other => panic!("expected the job to be closed, got {other:?}"),
    };
    assert_eq!(sqls(&turn), vec![FAIL_JOB_SQL, DELETE_LOCK_SQL]);
    assert!(matches!(failure(turn), Error::InvalidArgument(_)));
}

#[test]
fn a_backfill_searches_month_by_month() {
    let course = Course::user("alice", options(Some(20)), settings(), now());
    let turn = match proceed(course).next {
        Next::ReadExtent(_, state) => state.read(None, None, CLOCK),
        other => panic!("expected the extent to be read, got {other:?}"),
    };
    let (request, state) = match turn.next {
        Next::ReadCursor(statement, state) => {
            assert_eq!(statement.params, vec![text("user"), text("alice")]);
            match state.read(Some("2026-08-01T00:00:00Z"), CLOCK).next {
                Next::Fetch(request, state) => (request, state),
                other => panic!("expected a page to be fetched, got {other:?}"),
            }
        }
        other => panic!("expected a cursor to be read, got {other:?}"),
    };
    assert!(request.is_search);
    assert_eq!(
        request.variables[0].1,
        "is:pr author:alice created:2026-07-28..2026-07-31 sort:updated-desc"
    );
    let crowded = object(vec![(
        "search",
        object(vec![
            ("issueCount", Json::Number(Some(1500))),
            ("pageInfo", object(vec![("hasNextPage", Json::Bool(false))])),
            ("nodes", Json::Array(Vec::new())),
        ]),
    )]);
    let turn = state.fetched(&crowded, CLOCK);
    let state = match turn.next {
        Next::Fetch(request, state) => {
            assert_eq!(
                request.variables[0].1,
                "is:pr author:alice created:2026-07-28..2026-07-29 sort:updated-desc"
            );
            state
        }
        other => panic!("expected the first half, got {other:?}"),
    };
    let quiet = object(vec![(
        "search",
        object(vec![
            ("issueCount", Json::Number(Some(0))),
            ("nodes", Json::Array(Vec::new())),
        ]),
    )]);
    let mut searched = Vec::new();
    let mut next = state.fetched(&quiet, CLOCK).next;
    while let Next::Fetch(request, state) = next {
        searched.push(request.variables[0].1.clone());
        next = state.fetched(&quiet, CLOCK).next;
    }
    assert_eq!(
        searched,
        vec![
            "is:pr author:alice created:2026-07-30..2026-07-31 sort:updated-desc",
            "is:pr author:alice created:2026-08-01..2026-08-16 sort:updated-desc",
        ]
    );
    match next {
        Next::ReadCursor(statement, _) => {
            assert_eq!(statement.params, vec![text("user_reviews"), text("alice")]);
        }
        other => panic!("expected the other role, got {other:?}"),
    }
}

#[test]
fn legs_follow_the_options() {
    let all = options(None);
    assert_eq!(repository_legs(&all), vec![Leg::PullRequests, Leg::Issues]);
    assert_eq!(
        user_legs(&all),
        vec![Leg::Role(UserRole::Author), Leg::Role(UserRole::Reviewer)]
    );
    let only = SyncOptions { pull_requests_only: true, ..options(None) };
    assert_eq!(repository_legs(&only), vec![Leg::PullRequests]);
    let names: Vec<&str> = vec![
        Leg::PullRequests.source_type(),
        Leg::Issues.source_type(),
        Leg::Role(UserRole::Author).source_type(),
        Leg::Role(UserRole::Reviewer).source_type(),
    ];
    assert_eq!(names, vec!["repo", "repo_issues", "user", "user_reviews"]);
}

#[test]
fn a_run_is_anchored_inside_the_calendar() {
    assert!(is_anchor(&now()));
}
