use githubdw::calendar::Date;
use githubdw::clock::Instant;
use githubdw::metrics::types::{EntityMetric, GroupMetrics, MetricWithDelta, RepoMetrics, UserMetrics};
use githubdw::metrics::{check_failures, primary_key, MetricsEngine};
use githubdw::period::Period;
use githubdw::query::{
    lookup_entity_keys, lower_all, resolve_all, resolve_entity_keys,
};
use githubdw::sql::{SqlValue, Statement};
use githubdw::storage::schema;
use githubdw::storage::time_dimension::{ensure_date_row, ensure_time_row, today_or_default, TIMEZONE_SQL};
use rusqlite::types::Value;
use rusqlite::Connection;
use rusqlite_migration::{Migrations, M};

fn open() -> Connection {
    let mut conn = Connection::open_in_memory().expect("open in-memory db");
    let steps: Vec<M<'static>> = schema::migrations().into_iter().map(M::up).collect();
    conn.pragma_update(None, "foreign_keys", "OFF").expect("foreign keys off");
    Migrations::new(steps).to_latest(&mut conn).expect("migrate");
    conn.pragma_update(None, "foreign_keys", "ON").expect("foreign keys on");
    conn
}

fn bound(statement: &Statement) -> Vec<Value> {
    statement
        .params
        .iter()
        .map(|value| match value {
            SqlValue::Null => Value::Null,
            SqlValue::Integer(n) => Value::Integer(*n),
            SqlValue::Text(text) => Value::Text(text.clone()),
        })
        .collect()
}

fn execute(conn: &Connection, statement: &Statement) -> rusqlite::Result<usize> {
    conn.execute(&statement.sql, rusqlite::params_from_iter(bound(statement)))
}

fn known_keys(conn: &Connection, login: &str) -> Vec<String> {
    let Some(statement) = lookup_entity_keys(login) else {
        return Vec::new();
    };
    let mut prepared = conn.prepare(&statement.sql).unwrap();
    let rows = prepared
        .query_map(rusqlite::params_from_iter(bound(&statement)), |row| row.get(0))
        .unwrap();
    rows.map(|row| row.unwrap()).collect()
}

fn date(year: i32, month: u32, day: u32) -> Date {
    Date::from_ymd_opt(year, month, day).unwrap()
}

/// Seed dim rows + PRs across two quarters for delta checks.
fn seed(conn: &Connection) {
    for day in ["2026-01-10", "2026-04-05", "2026-04-10", "2026-04-20"] {
        execute(conn, &ensure_date_row(day).unwrap()).unwrap();
    }
    execute(conn, &ensure_time_row("10:00", (9, 17)).unwrap()).unwrap();
    conn.execute_batch(
        "INSERT INTO dim_entities (entity_key, entity_type, login, is_human, is_bot, name)
         VALUES ('user:alice', 'user', 'alice', 1, 0, 'alice'),
                ('user:bob', 'user', 'bob', 1, 0, 'bob');
         INSERT INTO dim_repositories (repo_key, owner, name)
         VALUES ('octo/alpha', 'octo', 'alpha');
         INSERT INTO fact_pull_requests (pr_key, number, repo_key, author_key, state, title,
             created_at, created_date_key, created_time_key, additions, deletions)
         VALUES
           -- Q1: one merged PR by alice
           ('octo/alpha#1', 1, 'octo/alpha', 'user:alice', 'MERGED', 'Q1 change',
            '2026-01-10T18:00:00Z', '2026-01-10', '10:00', 100, 10),
           -- Q2: two PRs by alice, one by bob
           ('octo/alpha#2', 2, 'octo/alpha', 'user:alice', 'MERGED', 'Q2 change A',
            '2026-04-05T18:00:00Z', '2026-04-05', '10:00', 30, 3),
           ('octo/alpha#3', 3, 'octo/alpha', 'user:alice', 'OPEN', 'Q2 change B',
            '2026-04-10T18:00:00Z', '2026-04-10', '10:00', 20, 2),
           ('octo/alpha#4', 4, 'octo/alpha', 'user:bob', 'MERGED', 'Q2 bob change',
            '2026-04-20T18:00:00Z', '2026-04-20', '10:00', 5, 1);
         INSERT INTO fact_reviews (review_key, pr_key, reviewer_key, state, submitted_at,
             submitted_date_key, submitted_time_key)
         VALUES
           ('R1', 'octo/alpha#2', 'user:bob', 'APPROVED', '2026-04-06T10:00:00Z', '2026-04-05', '10:00'),
           ('R2', 'octo/alpha#4', 'user:alice', 'APPROVED', '2026-04-20T10:00:00Z', '2026-04-20', '10:00');",
    )
    .unwrap();
}

fn sums(conn: &Connection, statements: &[Statement]) -> Vec<(i64, i64)> {
    statements
        .iter()
        .map(|statement| {
            conn.query_row(
                &statement.sql,
                rusqlite::params_from_iter(bound(statement)),
                |row| Ok((row.get(0)?, row.get(1)?)),
            )
            .unwrap()
        })
        .collect()
}

fn board(conn: &Connection, statement: &Statement) -> Vec<EntityMetric> {
    let mut prepared = conn.prepare(&statement.sql).unwrap();
    let rows = prepared
        .query_map(rusqlite::params_from_iter(bound(statement)), |row| {
            Ok(EntityMetric::from_row(
                row.get(0)?,
                row.get(1)?,
                row.get(2)?,
                row.get(3)?,
                row.get(4)?,
                row.get(5)?,
            ))
        })
        .unwrap();
    rows.map(|row| row.unwrap()).collect()
}

fn user_metrics(conn: &Connection, engine: &MetricsEngine, login: &str, period: &Period) -> UserMetrics {
    let keys = resolve_entity_keys(login, &known_keys(conn, login));
    let measured = sums(conn, &engine.user_measures(&keys, period));
    engine.user_metrics(login, &keys, period, &measured)
}

fn repo_metrics(conn: &Connection, engine: &MetricsEngine, repo: &str, period: &Period) -> RepoMetrics {
    let keys = lower_all(&vec![repo.to_string()]);
    let measured = sums(conn, &engine.repo_measures(&keys, period));
    let statement = engine.check_runs(&keys[0], period);
    let (failed, total): (Option<i64>, i64) = conn
        .query_row(
            &statement.sql,
            rusqlite::params_from_iter(bound(&statement)),
            |row| Ok((row.get(0)?, row.get(1)?)),
        )
        .unwrap();
    engine.repo_metrics(repo, period, &measured, check_failures(failed, total))
}

fn user_group_metrics(
    conn: &Connection,
    engine: &MetricsEngine,
    name: &str,
    logins: &[&str],
    period: &Period,
) -> GroupMetrics {
    let members: Vec<(String, Vec<String>)> = logins
        .iter()
        .map(|login| (login.to_string(), known_keys(conn, login)))
        .collect();
    let keys = resolve_all(&members);
    let measured = sums(conn, &engine.user_group_measures(&keys, period));
    engine.user_group_metrics(name, &keys, period, &measured)
}

fn set_timezone(conn: &Connection, name: &str) {
    conn.execute(
        "INSERT INTO config (key, value) VALUES ('timezone', ?1)
         ON CONFLICT (key) DO UPDATE SET value = excluded.value",
        [name],
    )
    .unwrap();
}

fn engine_of(conn: &Connection, now: &Instant) -> MetricsEngine {
    let stored: String = conn.query_row(TIMEZONE_SQL, [], |row| row.get(0)).unwrap();
    MetricsEngine::new(today_or_default(Some(&stored), now))
}

#[test]
fn reference_date_follows_the_configured_timezone() {
    let east = open();
    set_timezone(&east, "Pacific/Kiritimati"); // UTC+14
    let west = open();
    set_timezone(&west, "Etc/GMT+12"); // UTC-12

    // Two zones 26 hours apart can never share a local date.
    for text in ["2026-03-10T00:00:00Z", "2026-03-10T12:00:00Z", "2026-03-10T23:59:59Z"] {
        let now = Instant::parse(text).unwrap();
        let east_reference = engine_of(&east, &now).reference_date();
        let west_reference = engine_of(&west, &now).reference_date();
        assert_ne!(
            east_reference, west_reference,
            "reference date is config-driven, not a single global UTC date"
        );
        assert_eq!(east_reference, today_or_default(Some("Pacific/Kiritimati"), &now));
        assert_eq!(west_reference, today_or_default(Some("Etc/GMT+12"), &now));
    }
}

#[test]
fn user_metrics_with_deltas() {
    let conn = open();
    seed(&conn);
    // Reference date after Q2 ends so the period is complete (no truncation).
    let engine = MetricsEngine::new(date(2026, 1, 1)).as_of(date(2026, 7, 1));
    let metrics = user_metrics(&conn, &engine, "alice", &Period::Quarter(2026, 2));
    assert_eq!(metrics.prs_opened.current, 2);
    assert_eq!(metrics.prs_opened.previous, 1);
    assert_eq!(metrics.prs_opened.delta, 1);
    assert_eq!(metrics.prs_merged.current, 1);
    assert_eq!(metrics.reviews_given.current, 1, "alice reviewed bob's PR");
    assert_eq!(metrics.reviews_received.current, 1, "bob reviewed alice's PR");
    assert_eq!(metrics.lines_added.current, 50);
    assert_eq!(metrics.lines_added.previous, 100);
}

#[test]
fn user_metrics_resolve_bot_logins() {
    let conn = open();
    seed(&conn);
    conn.execute_batch(
        "INSERT INTO dim_entities (entity_key, entity_type, login, is_human, is_bot, name)
         VALUES ('bot:github-actions', 'bot', 'github-actions', 0, 1, 'github-actions');
         INSERT INTO fact_reviews (review_key, pr_key, reviewer_key, state, submitted_at,
             submitted_date_key, submitted_time_key)
         VALUES ('R-BOT', 'octo/alpha#3', 'bot:github-actions', 'APPROVED',
             '2026-04-10T20:00:00Z', '2026-04-10', '10:00');",
    )
    .unwrap();
    let engine = MetricsEngine::new(date(2026, 7, 1));

    let metrics = user_metrics(&conn, &engine, "GitHub-Actions", &Period::Quarter(2026, 2));
    assert_eq!(
        metrics.login, "github-actions",
        "the report is labeled with the bare login, not the warehouse key"
    );
    assert_eq!(metrics.entity_type, "bot");
    assert_eq!(metrics.entity_key, "bot:github-actions");
    assert_eq!(
        metrics.display_login(),
        "github-actions [bot]",
        "a bot is marked, so it cannot be read as a person of the same name"
    );
    assert_eq!(metrics.reviews_given.current, 1);
    assert_eq!(metrics.prs_opened.current, 0);

    let keys = resolve_entity_keys("github-actions", &known_keys(&conn, "github-actions"));
    let boards = engine.user_aggregations(&keys, &Period::Quarter(2026, 2), 5);
    assert_eq!(board(&conn, &boards[2])[0].entity_key, "user:alice");

    // The group path resolves each member the same way.
    let group = user_group_metrics(
        &conn,
        &engine,
        "automation",
        &["github-actions"],
        &Period::Quarter(2026, 2),
    );
    assert_eq!(group.reviews_given.unwrap().current, 1);
}

#[test]
fn partial_period_truncates_previous_window() {
    let conn = open();
    seed(&conn);
    // Reference = Apr 8, day 8 of Q2: only previous days 1-8 of Q1 count.
    let engine = MetricsEngine::new(date(2026, 4, 8));
    let metrics = user_metrics(&conn, &engine, "alice", &Period::Quarter(2026, 2));
    // Current window Apr 1-8 has one PR (#2, Apr 5).
    assert_eq!(metrics.prs_opened.current, 1);
    // Q1 PR was Jan 10 = day 10 of Q1 > 8 elapsed days, so excluded.
    assert_eq!(metrics.prs_opened.previous, 0);
    // Reported previous range ends at day 8 of Q1.
    assert_eq!(metrics.previous_date_range.1, "2026-01-08");
}

#[test]
fn repo_metrics_and_leaderboards() {
    let conn = open();
    seed(&conn);
    let engine = MetricsEngine::new(date(2026, 7, 1));
    let period = Period::Quarter(2026, 2);

    let metrics = repo_metrics(&conn, &engine, "octo/alpha", &period);
    assert_eq!(metrics.prs_opened.current, 3);
    assert_eq!(metrics.prs_opened.previous, 1);
    assert_eq!(metrics.total_reviews.current, 2);

    let boards = engine.repo_aggregations(&vec!["octo/alpha".to_string()], &period, 10);
    let contributors = board(&conn, &boards[0]);
    assert_eq!(contributors.len(), 2);
    assert_eq!(contributors[0].entity_key, "user:alice");
    assert_eq!(contributors[0].current, 2);
    assert_eq!(contributors[0].rank_current, 1);
}

#[test]
fn group_metrics() {
    let conn = open();
    seed(&conn);
    let engine = MetricsEngine::new(date(2026, 7, 1));
    let period = Period::Quarter(2026, 2);

    let group = user_group_metrics(&conn, &engine, "core", &["alice"], &period);
    assert_eq!(group.prs_opened.current, 2);
    assert_eq!(group.member_count, 1);
    // alice reviewed bob (outsider): counts as given-to-outsiders.
    assert_eq!(group.reviews_given.as_ref().unwrap().current, 1);

    let repos = lower_all(&vec!["octo/alpha".to_string()]);
    let measured = sums(&conn, &engine.repo_group_measures(&repos, &period));
    let repo_group = engine.repo_group_metrics("all", &repos, &period, &measured);
    assert_eq!(repo_group.prs_opened.current, 3);
    assert_eq!(repo_group.total_reviews.as_ref().unwrap().current, 2);
}

fn percent(metric: &MetricWithDelta) -> Option<f64> {
    if metric.has_percent() {
        Some(metric.delta as f64 / metric.previous as f64 * 100.0)
    } else {
        None
    }
}

fn render(metric: &MetricWithDelta) -> String {
    let text = percent(metric).map(|value| format!("{value:+.0}"));
    metric.render(text.as_deref())
}

#[test]
fn delta_math_and_rendering() {
    let metric = MetricWithDelta::new(42, 34);
    assert_eq!(metric.delta, 8);
    assert!((percent(&metric).unwrap() - 23.5).abs() < 0.1);
    assert_eq!(render(&metric), "42 (+8, +24%)");

    let no_change = MetricWithDelta::new(5, 5);
    assert_eq!(render(&no_change), "5 (no change)");

    let from_zero = MetricWithDelta::new(3, 0);
    assert_eq!(percent(&from_zero), None);
    assert_eq!(render(&from_zero), "3 (+3)");
}

#[test]
fn leaderboard_rendering() {
    let riser = EntityMetric {
        entity_key: "user:alice".to_string(),
        entity_name: Some("alice".to_string()),
        current: 42,
        previous: 34,
        delta: 8,
        rank_current: 1,
        rank_previous: Some(3),
    };
    assert_eq!(riser.render(), "#1 alice — 42 (+8) [was #3]");

    let newcomer = EntityMetric {
        entity_key: "user:bob".to_string(),
        entity_name: Some("bob".to_string()),
        current: 10,
        previous: 0,
        delta: 10,
        rank_current: 2,
        rank_previous: None,
    };
    assert_eq!(newcomer.render(), "#2 bob — 10 (+10) [new]");
}

#[test]
fn render_falls_back_to_the_bare_login() {
    let nameless = EntityMetric {
        entity_key: "user:carol".to_string(),
        entity_name: None,
        current: 5,
        previous: 5,
        delta: 0,
        rank_current: 3,
        rank_previous: Some(3),
    };
    assert_eq!(nameless.render(), "#3 carol — 5 (+0)");

    let nameless_bot = EntityMetric {
        entity_key: "bot:builder".to_string(),
        entity_name: None,
        current: 7,
        previous: 2,
        delta: 5,
        rank_current: 1,
        rank_previous: Some(1),
    };
    assert_eq!(nameless_bot.render(), "#1 builder [bot] — 7 (+5)");

    // A repository key is not namespaced and passes through unchanged.
    let repository = EntityMetric {
        entity_key: "octo/alpha".to_string(),
        entity_name: None,
        current: 3,
        previous: 3,
        delta: 0,
        rank_current: 2,
        rank_previous: Some(2),
    };
    assert_eq!(repository.render(), "#2 octo/alpha — 3 (+0)");
}

#[test]
fn nameless_entities_are_ranked_without_a_name() {
    let conn = open();
    seed(&conn);
    conn.execute("UPDATE dim_entities SET name = NULL WHERE entity_key = 'user:bob'", [])
        .unwrap();
    let engine = MetricsEngine::new(date(2026, 7, 1));
    let period = Period::Quarter(2026, 2);
    let boards = engine.repo_aggregations(&vec!["octo/alpha".to_string()], &period, 10);
    let contributors = board(&conn, &boards[0]);
    assert_eq!(contributors[1].entity_name, None);
    assert_eq!(contributors[1].render(), "#2 bob — 1 (+1) [new]");
}

#[test]
fn check_failures_need_check_runs() {
    let conn = open();
    seed(&conn);
    let engine = MetricsEngine::new(date(2026, 7, 1));
    let period = Period::Quarter(2026, 2);
    assert_eq!(repo_metrics(&conn, &engine, "octo/alpha", &period).check_failures, None);
    conn.execute_batch(
        "INSERT INTO fact_check_runs (check_run_key, pr_key, name, status, conclusion)
         VALUES ('C1', 'octo/alpha#2', 'build', 'COMPLETED', 'SUCCESS'),
                ('C2', 'octo/alpha#3', 'build', 'COMPLETED', 'FAILURE'),
                ('C3', 'octo/alpha#3', 'lint', 'COMPLETED', 'TIMED_OUT'),
                ('C4', 'octo/alpha#1', 'build', 'COMPLETED', 'FAILURE');",
    )
    .unwrap();
    assert_eq!(
        repo_metrics(&conn, &engine, "Octo/Alpha", &period).check_failures,
        Some((2, 3))
    );
    assert_eq!(check_failures(Some(0), 0), None);
}

#[test]
fn comparisons_of_running_periods_are_fair() {
    let engine = MetricsEngine::new(date(2026, 7, 25));
    let windows = engine.windows(&Period::Quarter(2026, 3));
    assert_eq!(windows.current_start, "2026-07-01");
    assert_eq!(windows.current_end, "2026-07-25");
    assert_eq!(windows.previous_start, "2026-04-01");
    assert_eq!(windows.previous_end, "2026-04-25");
    assert_eq!(windows.previous_position_filter, " AND dd.day_of_quarter <= 25");
    assert_eq!(windows.previous_period_key, "2026-Q2");

    let complete = engine.windows(&Period::Month(2026, 6));
    assert_eq!(complete.previous_end, "2026-05-31");
    assert_eq!(complete.previous_position_filter, "");
}

#[test]
fn only_periods_in_the_calendar_are_compared() {
    assert!(MetricsEngine::can_compare(&Period::Quarter(2026, 1)));
    assert!(MetricsEngine::can_compare(&Period::Rolling(30, date(2026, 7, 1))));
    assert!(!MetricsEngine::can_compare(&Period::Year(400_000)));
    assert!(!MetricsEngine::can_compare(&Period::Rolling(u32::MAX, date(2026, 7, 1))));
}

#[test]
fn a_report_is_labeled_with_the_first_key() {
    let keys = vec!["bot:shared".to_string(), "user:shared".to_string()];
    assert_eq!(primary_key(&keys, "shared"), "bot:shared");
    assert_eq!(primary_key(&vec![], "Alice"), "user:alice");
}

#[test]
fn negative_sums_count_as_zero() {
    let metric = MetricWithDelta::measured(-3, 4);
    assert_eq!((metric.current, metric.previous, metric.delta), (0, 4, -4));
}
