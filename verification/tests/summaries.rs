use githubdw::sql::{SqlValue, Statement};
use githubdw::storage::schema;
use githubdw::summaries::pr_summary::{
    existing_summary, get_pr_summary, has_pr_summary, run_prompt, run_result, set_runtime,
    PrSummaryData, PR_SUMMARY_SYSTEM_PROMPT,
};
use githubdw::summaries::tools::{
    cell_text, default_limit, derive_source, find_source, parse_pr_key, pr_summary_tools,
    NotableAspect, PrSource, QueryDatabaseInput, QueryDatabaseTool, QueryRow, ResultCell,
    WritePrSummaryInput, WritePrSummaryTool, PROMPT_VERSION,
};
use rusqlite::types::Value;
use rusqlite::{Connection, OptionalExtension};
use rusqlite_migration::{Migrations, M};

fn open() -> Connection {
    let mut conn = Connection::open_in_memory().expect("open in-memory db");
    let steps: Vec<M<'static>> = schema::migrations().into_iter().map(M::up).collect();
    conn.pragma_update(None, "foreign_keys", "OFF").expect("foreign keys off");
    Migrations::new(steps).to_latest(&mut conn).expect("migrate");
    conn.pragma_update(None, "foreign_keys", "ON").expect("foreign keys on");
    conn
}

fn bound(statement: &Statement) -> Vec<Value> {
    statement
        .params
        .iter()
        .map(|value| match value {
            SqlValue::Null => Value::Null,
            SqlValue::Integer(n) => Value::Integer(*n),
            SqlValue::Text(text) => Value::Text(text.clone()),
        })
        .collect()
}

fn execute(conn: &Connection, statement: &Statement) -> rusqlite::Result<usize> {
    conn.execute(&statement.sql, rusqlite::params_from_iter(bound(statement)))
}

const NOW: &str = "2026-08-16T12:00:00+00:00";

#[test]
fn test_system_prompt_mentions_tools() {
    assert!(!PR_SUMMARY_SYSTEM_PROMPT.is_empty());
    assert!(PR_SUMMARY_SYSTEM_PROMPT.contains("query_database"));
    assert!(PR_SUMMARY_SYSTEM_PROMPT.contains("write_pr_summary"));
}

fn insert_summary(conn: &Connection, pr_key: &str) {
    conn.execute(
        r#"INSERT INTO pr_summaries
           (pr_key, repo_key, number, headline, what_changed, why_it_matters,
            notability_score, change_types, impact_areas, complexity_signal,
            prompt_version, source_updated_at, runtime_ms, created_at, updated_at)
           VALUES (?1, 'octo/hello', 42, 'A headline', 'What changed', 'Why it matters',
                   6, '["bugfix"]', '["internal"]', 'involved',
                   1, '2026-08-15T12:00:00Z', 777, '2026-08-15T13:00:00Z',
                   '2026-08-15T13:00:00Z')"#,
        [pr_key],
    )
    .expect("insert summary");
}

fn has(conn: &Connection, pr_key: &str) -> bool {
    let statement = has_pr_summary(pr_key);
    conn.query_row(
        &statement.sql,
        rusqlite::params_from_iter(bound(&statement)),
        |_| Ok(true),
    )
    .unwrap_or(false)
}

fn get(conn: &Connection, pr_key: &str) -> Option<PrSummaryData> {
    let statement = get_pr_summary(pr_key);
    conn.query_row(
        &statement.sql,
        rusqlite::params_from_iter(bound(&statement)),
        |row| {
            Ok(PrSummaryData {
                pr_key: row.get(0)?,
                headline: row.get(1)?,
                what_changed: row.get(2)?,
                why_it_matters: row.get(3)?,
                notability_score: row.get(4)?,
                complexity_signal: row.get(5)?,
                runtime_ms: row.get(6)?,
            })
        },
    )
    .ok()
}

#[test]
fn has_and_get_pr_summary_round_trip() {
    let conn = open();
    assert!(!has(&conn, "octo/hello#42"));
    assert!(get(&conn, "octo/hello#42").is_none());

    insert_summary(&conn, "octo/hello#42");

    assert!(has(&conn, "octo/hello#42"));
    let summary = get(&conn, "octo/hello#42").expect("summary");
    assert_eq!(summary.pr_key, "octo/hello#42");
    assert_eq!(summary.headline, "A headline");
    assert_eq!(summary.what_changed, "What changed");
    assert_eq!(summary.why_it_matters, "Why it matters");
    assert_eq!(summary.notability_score, 6);
    assert_eq!(summary.complexity_signal, "involved");
    assert_eq!(summary.runtime_ms, Some(777));
}

#[test]
fn summarize_pr_skips_when_summary_exists() {
    let conn = open();
    insert_summary(&conn, "octo/hello#42");
    let key = "octo/hello#42";
    let result = existing_summary(key, false, has(&conn, key), get(&conn, key)).expect("skipped");
    assert!(result.skipped, "existing summary must short-circuit");
    assert!(result.success);
    assert!(result.error.is_none());
    let summary = result.summary.expect("skip path returns the stored summary");
    assert_eq!(summary.headline, "A headline");

    assert!(existing_summary(key, true, has(&conn, key), get(&conn, key)).is_none());
    assert!(existing_summary("octo/hello#43", false, false, None).is_none());
}

#[test]
fn a_run_reports_what_it_wrote() {
    let conn = open();
    let key = "octo/hello#42";
    let failed = run_result(key, has(&conn, key), get(&conn, key), "I could not".to_string());
    assert!(!failed.success && !failed.skipped);
    assert_eq!(failed.summary, None);
    assert_eq!(failed.error.as_deref(), Some("I could not"));

    insert_summary(&conn, key);
    execute(&conn, &set_runtime(key, 1234)).unwrap();
    let written = run_result(key, has(&conn, key), get(&conn, key), "done".to_string());
    assert!(written.success);
    assert_eq!(written.error, None);
    assert_eq!(written.summary.unwrap().runtime_ms, Some(1234));
    assert!(run_prompt(key).contains("pull request: octo/hello#42"));
}

#[test]
fn read_only_guard_allows_select_with_explain() {
    assert!(QueryDatabaseTool::is_read_only("SELECT 1"));
    assert!(QueryDatabaseTool::is_read_only("  select * from fact_pull_requests"));
    assert!(QueryDatabaseTool::is_read_only("WITH x AS (SELECT 1) SELECT * FROM x"));
    assert!(QueryDatabaseTool::is_read_only("EXPLAIN SELECT 1"));
}

#[test]
fn read_only_guard_rejects_writes() {
    for sql in [
        "INSERT INTO pr_summaries (pr_key) VALUES ('x')",
        "UPDATE fact_pull_requests SET state = 'OPEN'",
        "DELETE FROM fact_pull_requests",
        "DROP TABLE pr_summaries",
        "PRAGMA journal_mode = DELETE",
        "CREATE TABLE evil (x)",
        "ATTACH DATABASE '/tmp/x.db' AS x",
    ] {
        assert!(!QueryDatabaseTool::is_read_only(sql), "allowed: {sql}");
    }
}

/// Seed the dimension rows plus one PR so FK-checked inserts succeed.
fn seed_pr(conn: &Connection) {
    conn.execute_batch(
        r#"
        INSERT INTO dim_entities (entity_key, entity_type, login, is_human, is_bot, name)
        VALUES ('user:octocat', 'user', 'octocat', 1, 0, 'Octo Cat');
        INSERT INTO dim_repositories (repo_key, owner, name)
        VALUES ('octo/hello', 'octo', 'hello');
        INSERT INTO dim_date (date_key, year, quarter, month, day_of_month,
                              day_of_week, is_weekend, week_of_year, week_key,
                              month_key, quarter_key, year_key, half_key)
        VALUES ('2026-08-15', 2026, 3, 8, 15, 6, 1, 33, '2026-W33',
                '2026-08', '2026-Q3', '2026', '2026-H2');
        INSERT INTO dim_time (time_key, hour, hour_12, am_pm, time_bucket, is_core_hours)
        VALUES ('10:00', 10, 10, 'AM', 'morning', 1);
        INSERT INTO fact_pull_requests
            (pr_key, number, repo_key, author_key, state, created_at, updated_at,
             created_date_key, created_time_key)
        VALUES ('octo/hello#42', 42, 'octo/hello', 'user:octocat', 'MERGED',
                '2026-08-15T10:00:00Z', '2026-08-15T12:34:56Z',
                '2026-08-15', '10:00');
        "#,
    )
    .expect("seed");
}

fn ask(conn: &Connection, sql: &str, limit: usize) -> Result<QueryRow, String> {
    let input = QueryDatabaseInput { sql: sql.to_string(), limit };
    QueryDatabaseTool::admit_text(&input.sql)?;
    let mut prepared = conn.prepare(&input.sql).map_err(|error| error.to_string())?;
    QueryDatabaseTool::admit_statement(prepared.readonly())?;
    let columns: Vec<String> = prepared.column_names().iter().map(|name| name.to_string()).collect();
    let width = columns.len();
    let mut result = QueryRow::new(columns);
    let mut rows = prepared.query([]).map_err(|error| error.to_string())?;
    while let Some(row) = rows.next().map_err(|error| error.to_string())? {
        let values = (0..width)
            .map(|i| {
                cell_text(match row.get::<_, Value>(i) {
                    Ok(Value::Integer(n)) => ResultCell::Integer(n),
                    Ok(Value::Real(x)) => ResultCell::Real(x.to_string()),
                    Ok(Value::Text(text)) => ResultCell::Text(text),
                    Ok(Value::Blob(_)) => ResultCell::Blob,
                    _ => ResultCell::Null,
                })
            })
            .collect();
        if !result.offer(values, input.limit) {
            break;
        }
    }
    Ok(result)
}

#[test]
fn query_tool_rejects_cte_masked_delete() {
    let conn = open();
    seed_pr(&conn);
    let result = ask(&conn, "WITH x AS (SELECT 1 LIMIT 1) DELETE FROM fact_pull_requests", 10);
    assert!(result.is_err(), "CTE-masked DELETE must be rejected");
    let n: i64 = conn
        .query_row("SELECT COUNT(*) FROM fact_pull_requests", [], |r| r.get(0))
        .unwrap();
    assert_eq!(n, 1, "the PR row must survive the rejected DELETE");
}

#[test]
fn query_tool_rejects_cte_masked_insert() {
    let conn = open();
    let result = ask(
        &conn,
        "WITH x AS (SELECT 1) \
         INSERT INTO dim_time (time_key, hour, hour_12, am_pm, time_bucket, is_core_hours) \
         SELECT '23:59', 23, 11, 'PM', 'night', 0 FROM x",
        10,
    );
    assert!(result.is_err(), "CTE-masked INSERT must be rejected");
    let n: i64 = conn
        .query_row("SELECT COUNT(*) FROM dim_time", [], |r| r.get(0))
        .unwrap();
    assert_eq!(n, 0, "nothing may be inserted");
}

#[test]
fn query_tool_rejects_plain_mutation_and_data_survives() {
    let conn = open();
    seed_pr(&conn);
    assert!(ask(&conn, "DELETE FROM fact_pull_requests", 10).is_err());
    let n: i64 = conn
        .query_row("SELECT COUNT(*) FROM fact_pull_requests", [], |r| r.get(0))
        .unwrap();
    assert_eq!(n, 1);
}

#[test]
fn query_tool_returns_decoded_rows() {
    let conn = open();
    seed_pr(&conn);
    let rows = ask(&conn, "SELECT pr_key, number FROM fact_pull_requests", 10).expect("query");
    assert_eq!(rows.columns, vec!["pr_key", "number"]);
    assert_eq!(
        rows.values,
        vec![vec!["octo/hello#42".to_string(), "42".to_string()]]
    );
    assert!(!rows.truncated);
}

fn seed_times(conn: &Connection, n: usize) {
    for i in 0..n {
        conn.execute(
            "INSERT INTO dim_time (time_key, hour, hour_12, am_pm, time_bucket, is_core_hours)
             VALUES (?1, 1, 1, 'AM', 'night', 0)",
            [format!("01:{i:02}")],
        )
        .unwrap();
    }
}

#[test]
fn query_tool_caps_rows_at_limit() {
    let conn = open();
    seed_times(&conn, 6);
    let rows = ask(&conn, "SELECT time_key FROM dim_time", 3).expect("query");
    assert_eq!(rows.values.len(), 3, "row count must be capped at the limit");
    assert!(rows.truncated, "truncation must be reported");
}

#[test]
fn query_tool_caps_rows_even_when_sql_mentions_limit() {
    let conn = open();
    seed_times(&conn, 6);
    let rows = ask(&conn, "SELECT 'has LIMIT inside' AS note, time_key FROM dim_time", 2)
        .expect("query");
    assert_eq!(rows.values.len(), 2);
    assert!(rows.truncated);
}

#[test]
fn query_tool_accepts_trailing_semicolon() {
    let conn = open();
    seed_times(&conn, 2);
    let result = ask(&conn, "SELECT time_key FROM dim_time;", 10);
    assert!(result.is_ok(), "trailing semicolon must not break: {result:?}");
    let rows = result.unwrap();
    assert_eq!(rows.values.len(), 2);
    assert!(!rows.truncated);
}

#[test]
fn query_tool_honors_explicit_sql_limit_below_cap() {
    let conn = open();
    seed_times(&conn, 6);
    let rows = ask(&conn, "SELECT time_key FROM dim_time LIMIT 1", 10).expect("query");
    assert_eq!(rows.values.len(), 1, "SQL's own LIMIT still applies");
    assert!(!rows.truncated);
}

#[test]
fn query_tool_shows_every_kind_of_value() {
    let conn = open();
    let rows = ask(&conn, "SELECT NULL, -7, 'text', x'00', 1.5", default_limit()).expect("query");
    assert_eq!(rows.values, vec![vec!["NULL", "-7", "text", "[BLOB]", "1.5"]]);
    assert_eq!(default_limit(), 100);
    assert_eq!(
        ask(&conn, "DROP TABLE issues", 1).unwrap_err(),
        "Only SELECT queries are allowed. Use write tools for modifications."
    );
}

#[test]
fn parse_pr_key_valid_and_invalid() {
    assert_eq!(
        parse_pr_key("octo/hello#42"),
        Some(("octo/hello".to_string(), 42))
    );
    assert_eq!(parse_pr_key("no-number#"), None);
    assert_eq!(parse_pr_key("no-hash-at-all"), None);
    assert_eq!(parse_pr_key("bad#num#x"), None);
    // A key with multiple '#' parses from the LAST separator.
    assert_eq!(parse_pr_key("a#b#7"), Some(("a#b".to_string(), 7)));
}

fn summary_input(pr_key: &str) -> WritePrSummaryInput {
    WritePrSummaryInput {
        pr_key: pr_key.to_string(),
        headline: "Adds a widget".to_string(),
        what_changed: "A widget was added".to_string(),
        why_it_matters: "Widgets matter".to_string(),
        notability_score: 5,
        notability_justification: "meaningful feature".to_string(),
        change_types: vec!["new_feature".to_string()],
        impact_areas: vec!["user_facing".to_string()],
        complexity_signal: "straightforward".to_string(),
        notable_aspects: Some(vec![NotableAspect {
            aspect_type: "innovation".to_string(),
            text: "novel widget".to_string(),
        }]),
        technical_keywords: Some(vec!["widget".to_string()]),
        domain_keywords: None,
        context_tags: None,
        runtime_ms: Some(1234),
    }
}

fn write(conn: &Connection, input: &WritePrSummaryInput, now: &str) -> rusqlite::Result<usize> {
    let statement = find_source(&input.pr_key);
    let source = conn
        .query_row(
            &statement.sql,
            rusqlite::params_from_iter(bound(&statement)),
            |row| {
                Ok(PrSource {
                    repo_key: row.get(0)?,
                    number: row.get(1)?,
                    author_key: row.get(2)?,
                    updated_at: row.get(3)?,
                })
            },
        )
        .optional()?;
    let tool = WritePrSummaryTool::new(PROMPT_VERSION);
    let (_, statement) = tool.save(input, source, now);
    execute(conn, &statement)
}

#[test]
fn write_summary_derives_fields_from_warehouse() {
    let conn = open();
    seed_pr(&conn);
    let result = write(&conn, &summary_input("octo/hello#42"), NOW);
    assert!(result.is_ok(), "write failed: {result:?}");

    let (repo_key, number, author_key, source_updated_at, prompt_version): (
        String,
        i64,
        Option<String>,
        String,
        i32,
    ) = conn
        .query_row(
            "SELECT repo_key, number, author_key, source_updated_at, prompt_version
             FROM pr_summaries WHERE pr_key = 'octo/hello#42'",
            [],
            |r| Ok((r.get(0)?, r.get(1)?, r.get(2)?, r.get(3)?, r.get(4)?)),
        )
        .expect("summary row");
    assert_eq!(repo_key, "octo/hello");
    assert_eq!(number, 42);
    assert_eq!(author_key.as_deref(), Some("user:octocat"));
    assert_eq!(source_updated_at, "2026-08-15T12:34:56Z");
    assert_eq!(prompt_version, PROMPT_VERSION);
}

#[test]
fn write_summary_falls_back_when_pr_not_in_warehouse() {
    let conn = open();
    let result = write(&conn, &summary_input("ghost/repo#7"), NOW);
    assert!(result.is_ok(), "write failed: {result:?}");

    let (repo_key, number, author_key): (String, i64, Option<String>) = conn
        .query_row(
            "SELECT repo_key, number, author_key FROM pr_summaries
             WHERE pr_key = 'ghost/repo#7'",
            [],
            |r| Ok((r.get(0)?, r.get(1)?, r.get(2)?)),
        )
        .expect("summary row");
    assert_eq!(repo_key, "ghost/repo");
    assert_eq!(number, 7);
    assert_eq!(author_key, None);
}

#[test]
fn write_summary_upsert_preserves_created_at() {
    let conn = open();
    seed_pr(&conn);
    write(&conn, &summary_input("octo/hello#42"), NOW).unwrap();

    // Pin created_at to a sentinel so a clobber is unambiguous.
    conn.execute(
        "UPDATE pr_summaries SET created_at = '2000-01-01T00:00:00Z'
         WHERE pr_key = 'octo/hello#42'",
        [],
    )
    .unwrap();

    let mut second = summary_input("octo/hello#42");
    second.headline = "Revised headline".to_string();
    second.notability_score = 8;
    write(&conn, &second, "2026-08-17T12:00:00+00:00").unwrap();

    let (count, headline, score, created_at, updated_at): (i64, String, i64, String, String) = conn
        .query_row(
            "SELECT COUNT(*), MAX(headline), MAX(notability_score),
                    MAX(created_at), MAX(updated_at)
             FROM pr_summaries",
            [],
            |r| Ok((r.get(0)?, r.get(1)?, r.get(2)?, r.get(3)?, r.get(4)?)),
        )
        .unwrap();
    assert_eq!(count, 1, "upsert must not duplicate");
    assert_eq!(headline, "Revised headline");
    assert_eq!(score, 8);
    assert_eq!(
        created_at, "2000-01-01T00:00:00Z",
        "created_at must survive a re-summarize"
    );
    assert_ne!(updated_at, "2000-01-01T00:00:00Z", "updated_at must move");
}

#[test]
fn summary_lists_are_stored_as_json() {
    let conn = open();
    write(&conn, &summary_input("ghost/repo#7"), NOW).unwrap();
    let (types, aspects, keywords, tags): (String, String, String, Option<String>) = conn
        .query_row(
            "SELECT change_types, notable_aspects, technical_keywords, context_tags
             FROM pr_summaries",
            [],
            |r| Ok((r.get(0)?, r.get(1)?, r.get(2)?, r.get(3)?)),
        )
        .unwrap();
    assert_eq!(types, r#"["new_feature"]"#);
    assert_eq!(aspects, r#"[{"aspect_type":"innovation","text":"novel widget"}]"#);
    assert_eq!(keywords, r#"["widget"]"#);
    assert_eq!(tags, None);
}

#[test]
fn a_key_that_says_nothing_is_its_own_subject() {
    let derived = derive_source("mystery", None, NOW);
    assert_eq!(derived.repo_key, "mystery");
    assert_eq!(derived.number, 0);
    assert_eq!(derived.author_key, None);
    assert_eq!(derived.updated_at.as_deref(), Some(NOW));
}

#[test]
fn pr_summary_tools_exposes_both_tools_by_name() {
    let (query, write) = pr_summary_tools();
    let names = vec![query.name(), write.name()];
    assert_eq!(names, vec!["query_database", "write_pr_summary"]);
    assert!(query.description().contains("read-only"));
    assert!(write.description().contains("pr_key"));
    assert_eq!(
        WritePrSummaryTool::receipt(&summary_input("octo/hello#42")),
        "Saved summary for octo/hello#42 (notability: 5)"
    );
}
