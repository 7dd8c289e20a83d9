use githubdw::error::Error;
use githubdw::fetch::issues::{IssueData, LabelData, MilestoneData};
use githubdw::fetch::pull_requests::ActorReference;
use githubdw::sql::{SqlValue, Statement};
use githubdw::storage::issue_repository::{
    replace_issue_assignees, replace_issue_labels, upsert_issue, upsert_label, upsert_milestone,
};
use githubdw::storage::monitor_repository::{
    add_org, add_repo, add_user, remove, source_of, touch_repo, touch_user, MonitoredSource,
    LIST_SQL,
};
use githubdw::storage::repository::{
    bot_login_suffix, ensure_entity, ensure_ghost_entity, set_file_diff_patch, upsert_file_diff,
    upsert_repository,
};
use githubdw::storage::schema;
use rusqlite::types::Value;
use rusqlite::Connection;
use rusqlite_migration::{Migrations, M};

fn open() -> Connection {
    let mut conn = Connection::open_in_memory().expect("open in-memory db");
    let steps: Vec<M<'static>> = schema::migrations().into_iter().map(M::up).collect();
    conn.pragma_update(None, "foreign_keys", "OFF").expect("foreign keys off");
    Migrations::new(steps).to_latest(&mut conn).expect("migrate");
    conn.pragma_update(None, "foreign_keys", "ON").expect("foreign keys on");
    conn
}

fn bound(statement: &Statement) -> Vec<Value> {
    statement
        .params
        .iter()
        .map(|value| match value {
            SqlValue::Null => Value::Null,
            SqlValue::Integer(n) => Value::Integer(*n),
            SqlValue::Text(text) => Value::Text(text.clone()),
        })
        .collect()
}

fn execute(conn: &Connection, statement: &Statement) -> rusqlite::Result<usize> {
    conn.execute(&statement.sql, rusqlite::params_from_iter(bound(statement)))
}

fn sample_issue() -> IssueData {
    IssueData {
        id: "ISS1".to_string(),
        number: 42,
        title: "Pagination bug".to_string(),
        body: Some("List cuts off".to_string()),
        state: "open".to_string(),
        state_reason: None,
        created_at: "2026-02-01T12:00:00Z".to_string(),
        updated_at: "2026-02-01T12:00:00Z".to_string(),
        closed_at: None,
        author: None,
        milestone: None,
        labels: vec![],
        assignees: vec![],
        comments: vec![],
    }
}

fn repository(conn: &Connection, name: &str, language: Option<&str>, branch: Option<&str>) -> String {
    let (key, statement) = upsert_repository(name, language, false, false, branch, None);
    execute(conn, &statement).unwrap();
    key
}

fn entity(conn: &Connection, login: &str, actor_type: &str) -> String {
    let actor = ActorReference { login: login.to_string(), actor_type: actor_type.to_string() };
    let (key, statement) = ensure_entity(&actor, "[bot]");
    execute(conn, &statement).unwrap();
    key
}

fn run_all(conn: &Connection, statements: &[Statement]) -> usize {
    statements.iter().map(|statement| execute(conn, statement).unwrap()).sum()
}

fn list(conn: &Connection) -> Vec<MonitoredSource> {
    let mut prepared = conn.prepare(LIST_SQL).unwrap();
    let rows = prepared
        .query_map([], |row| Ok(source_of(row.get(0)?, row.get(1)?, row.get(2)?, row.get(3)?)))
        .unwrap();
    rows.map(|row| row.unwrap()).collect()
}

fn users(conn: &Connection) -> Vec<String> {
    list(conn)
        .into_iter()
        .filter(|source| source.source_type == "user")
        .map(|source| source.identifier)
        .collect()
}

#[test]
fn issue_upsert_and_label_replacement() {
    let conn = open();
    let repo_key = repository(&conn, "octocat/hello", None, None);

    let issue = sample_issue();
    execute(&conn, &upsert_issue(&repo_key, &issue, None, None)).unwrap();

    let label = LabelData {
        id: "LAB1".to_string(),
        name: "bug".to_string(),
        color: "d73a4a".to_string(),
        description: String::new(),
    };
    execute(&conn, &upsert_label(&repo_key, &label)).unwrap();
    run_all(&conn, &replace_issue_labels(&issue.id, &vec!["LAB1".to_string()]));
    run_all(&conn, &replace_issue_labels(&issue.id, &vec!["LAB1".to_string()]));

    let label_count: i64 = conn
        .query_row("SELECT COUNT(*) FROM issue_labels", [], |row| row.get(0))
        .unwrap();
    assert_eq!(label_count, 1);

    // Re-upsert with new state; row count stays 1, FTS trigger keeps sync.
    let mut updated = sample_issue();
    updated.state = "closed".to_string();
    execute(&conn, &upsert_issue(&repo_key, &updated, None, None)).unwrap();
    let (count, state): (i64, String) = conn
        .query_row("SELECT COUNT(*), MAX(state) FROM issues", [], |row| {
            Ok((row.get(0)?, row.get(1)?))
        })
        .unwrap();
    assert_eq!(count, 1);
    assert_eq!(state, "closed");

    let fts_count: i64 = conn
        .query_row(
            "SELECT COUNT(*) FROM issues_fts WHERE issues_fts MATCH 'agination'",
            [],
            |row| row.get(0),
        )
        .unwrap();
    assert_eq!(fts_count, 1, "trigram substring match via trigger");
}

#[test]
fn add_list_remove_round_trip() {
    let conn = open();
    execute(&conn, &add_repo("Octocat/Hello").unwrap()).unwrap();
    execute(&conn, &add_user("octocat")).unwrap();
    execute(&conn, &add_org("acme")).unwrap();

    let sources = list(&conn);
    assert_eq!(sources.len(), 3);
    assert!(sources.iter().any(|s| s.identifier == "octocat/hello"));

    assert_eq!(run_all(&conn, &remove("octocat/hello")), 1);
    assert_eq!(list(&conn).len(), 2);
}

#[test]
fn add_repo_requires_owner_name_form() {
    assert!(add_repo("not-a-repo").is_err());
}

#[test]
fn prefixed_user_input_is_stored_bare() {
    let conn = open();
    execute(&conn, &add_user("user:Octocat")).unwrap();
    execute(&conn, &add_user("bot:GitHub-Actions")).unwrap();
    assert_eq!(users(&conn), vec!["github-actions", "octocat"]);

    // Adding the bare spelling of an existing row is a no-op, not a duplicate.
    execute(&conn, &add_user("octocat")).unwrap();
    assert_eq!(users(&conn).len(), 2);

    // Removal accepts either spelling.
    assert_eq!(run_all(&conn, &remove("user:octocat")), 1);
    assert_eq!(run_all(&conn, &remove("github-actions")), 1);
    assert!(list(&conn).is_empty());
}

#[test]
fn entity_resolution_detects_bots() {
    let conn = open();

    let key = entity(&conn, "Octocat", "User");
    assert_eq!(key, "user:octocat");

    let key = entity(&conn, "dependabot[bot]", "Bot");
    assert_eq!(key, "bot:dependabot[bot]");
    let is_bot: i64 = conn
        .query_row(
            "SELECT is_bot FROM dim_entities WHERE entity_key = ?1",
            [&key],
            |row| row.get(0),
        )
        .unwrap();
    assert_eq!(is_bot, 1);
}

#[test]
fn repository_upsert_is_idempotent() {
    let conn = open();
    let key = repository(&conn, "Octocat/Hello", Some("Rust"), Some("main"));
    assert_eq!(key, "octocat/hello");
    repository(&conn, "Octocat/Hello", Some("Go"), Some("main"));
    let (count, language): (i64, String) = conn
        .query_row(
            "SELECT COUNT(*), MAX(primary_language) FROM dim_repositories",
            [],
            |row| Ok((row.get(0)?, row.get(1)?)),
        )
        .unwrap();
    assert_eq!(count, 1);
    assert_eq!(language, "Go");
}

#[test]
fn the_refused_repository_is_named() {
    assert_eq!(
        add_repo("not-a-repo"),
        Err(Error::InvalidArgument("expected owner/name, got 'not-a-repo'".to_string()))
    );
}

#[test]
fn accounts_of_one_login_stay_apart() {
    let conn = open();
    assert_eq!(entity(&conn, "shared", "User"), "user:shared");
    assert_eq!(entity(&conn, "Shared", "Bot"), "bot:shared");
    assert_eq!(entity(&conn, "helper[bot]", "User"), "bot:helper[bot]");
    let (ghost, statement) = ensure_ghost_entity();
    execute(&conn, &statement).unwrap();
    assert_eq!(ghost, "user:ghost");
    let count: i64 = conn
        .query_row("SELECT COUNT(*) FROM dim_entities", [], |row| row.get(0))
        .unwrap();
    assert_eq!(count, 4);
}

#[test]
fn bot_suffixes_have_a_default() {
    assert_eq!(bot_login_suffix(None), "[bot]");
    assert_eq!(bot_login_suffix(Some("-bot")), "-bot");
}

#[test]
fn stamps_reach_the_monitored_rows() {
    let conn = open();
    execute(&conn, &add_repo("octocat/hello").unwrap()).unwrap();
    execute(&conn, &add_user("octocat")).unwrap();
    assert!(list(&conn).iter().all(|source| source.last_sync_at.is_none()));
    assert!(list(&conn).iter().all(|source| source.sync_enabled));
    execute(&conn, &touch_repo("octocat/hello")).unwrap();
    execute(&conn, &touch_user("octocat")).unwrap();
    assert!(list(&conn).iter().all(|source| source.last_sync_at.is_some()));
}

#[test]
fn milestones_and_assignees_are_replaced() {
    let conn = open();
    let repo_key = repository(&conn, "octocat/hello", None, None);
    let milestone = MilestoneData {
        id: "MILE1".to_string(),
        number: 1,
        title: "v1.0".to_string(),
        description: None,
        state: "OPEN".to_string(),
        due_on: None,
        created_at: None,
    };
    execute(&conn, &upsert_milestone(&repo_key, &milestone)).unwrap();
    let mut issue = sample_issue();
    issue.milestone = Some(milestone);
    execute(&conn, &upsert_issue(&repo_key, &issue, None, None)).unwrap();
    let stored: Option<String> = conn
        .query_row("SELECT milestone_id FROM issues", [], |row| row.get(0))
        .unwrap();
    assert_eq!(stored.as_deref(), Some("MILE1"));

    let first = entity(&conn, "alice", "User");
    let second = entity(&conn, "bob", "User");
    run_all(&conn, &replace_issue_assignees(&issue.id, &vec![first, second.clone()]));
    run_all(&conn, &replace_issue_assignees(&issue.id, &vec![second]));
    let left: String = conn
        .query_row("SELECT group_concat(entity_key) FROM issue_assignees", [], |row| row.get(0))
        .unwrap();
    assert_eq!(left, "user:bob");
}

#[test]
fn patches_are_kept_by_a_later_upsert() {
    let conn = open();
    let repo_key = repository(&conn, "octocat/hello", None, None);
    let author = entity(&conn, "alice", "User");
    conn.execute_batch(&format!(
        "INSERT INTO dim_date (date_key, year, quarter, month, day_of_month, day_of_week,
             is_weekend, week_of_year, week_key, month_key, quarter_key, year_key, half_key)
         VALUES ('2026-01-10', 2026, 1, 1, 10, 6, 1, 2, '2026-W02', '2026-01', '2026-Q1', '2026', '2026-H1');
         INSERT INTO dim_time (time_key, hour, hour_12, am_pm, time_bucket, is_core_hours)
         VALUES ('10:00', 10, 10, 'AM', 'Morning', 1);
         INSERT INTO fact_pull_requests (pr_key, number, repo_key, author_key, state,
             created_at, created_date_key, created_time_key)
         VALUES ('octocat/hello#1', 1, '{repo_key}', '{author}', 'OPEN',
             '2026-01-10T18:00:00Z', '2026-01-10', '10:00');"
    ))
    .unwrap();
    let pr_key = "octocat/hello#1";
    let diff = upsert_file_diff(pr_key, &repo_key, "src/lib.rs", None, "MODIFIED", None, 1, 2);
    execute(&conn, &diff).unwrap();
    let patch = set_file_diff_patch(pr_key, "src/lib.rs", Some("src/old.rs"), Some("@@ -1 +1 @@"));
    assert_eq!(execute(&conn, &patch).unwrap(), 1);
    execute(&conn, &diff).unwrap();
    let stored: Option<String> = conn
        .query_row("SELECT patch FROM fact_file_diffs", [], |row| row.get(0))
        .unwrap();
    assert_eq!(stored.as_deref(), Some("@@ -1 +1 @@"));
}
