use githubdw::calendar::Date;
use githubdw::error::Error;
use githubdw::outline::keyword_behind_tables;
use githubdw::period::Period;
use githubdw::query::{
    author_label, csv_escape, display_identity, entity_namespace, label_authors,
    lookup_entity_keys, parse_state, resolve_entity_keys, summarize, to_bare_login, to_csv,
    validate_select_only, GroupFilter, Lookups, PrState, PullRequestRecord, PullRequestSummary,
    QueryBuilder, Selection,
};
use githubdw::sql::{SqlValue, Statement};
use githubdw::storage::schema;
use rusqlite::types::Value;
use rusqlite::Connection;
use rusqlite_migration::{Migrations, M};

fn open() -> Connection {
    let mut conn = Connection::open_in_memory().expect("open in-memory db");
    let steps: Vec<M<'static>> = schema::migrations().into_iter().map(M::up).collect();
    conn.pragma_update(None, "foreign_keys", "OFF").expect("foreign keys off");
    Migrations::new(steps).to_latest(&mut conn).expect("migrate");
    conn.pragma_update(None, "foreign_keys", "ON").expect("foreign keys on");
    conn
}

fn bound(statement: &Statement) -> Vec<Value> {
    statement
        .params
        .iter()
        .map(|value| match value {
            SqlValue::Null => Value::Null,
            SqlValue::Integer(n) => Value::Integer(*n),
            SqlValue::Text(text) => Value::Text(text.clone()),
        })
        .collect()
}

fn execute(conn: &Connection, statement: &Statement) -> rusqlite::Result<usize> {
    conn.execute(&statement.sql, rusqlite::params_from_iter(bound(statement)))
}

fn known_keys(conn: &Connection, login: &str) -> Vec<String> {
    let Some(statement) = lookup_entity_keys(login) else {
        return Vec::new();
    };
    let mut prepared = conn.prepare(&statement.sql).unwrap();
    let rows = prepared
        .query_map(rusqlite::params_from_iter(bound(&statement)), |row| row.get(0))
        .unwrap();
    rows.map(|row| row.unwrap()).collect()
}

fn seed(conn: &Connection) {
    conn.execute_batch(
        "INSERT INTO dim_entities (entity_key, entity_type, login, is_human, is_bot, name)
         VALUES ('user:alice', 'user', 'alice', 1, 0, 'Alice'),
                ('user:bob', 'user', 'bob', 1, 0, 'Bob');
         INSERT INTO dim_repositories (repo_key, owner, name)
         VALUES ('octo/alpha', 'octo', 'alpha'), ('octo/beta', 'octo', 'beta');
         INSERT INTO dim_date (date_key, year, quarter, month, day_of_month, day_of_week,
             is_weekend, week_of_year, week_key, month_key, quarter_key, year_key, half_key)
         VALUES ('2026-01-10', 2026, 1, 1, 10, 6, 1, 2, '2026-W02', '2026-01', '2026-Q1', '2026', '2026-H1'),
                ('2026-04-10', 2026, 2, 4, 10, 5, 0, 15, '2026-W15', '2026-04', '2026-Q2', '2026', '2026-H1');
         INSERT INTO dim_time (time_key, hour, hour_12, am_pm, time_bucket, is_core_hours)
         VALUES ('10:00', 10, 10, 'AM', 'Morning', 1);
         INSERT INTO fact_pull_requests (pr_key, number, repo_key, author_key, state, title,
             created_at, created_date_key, created_time_key, additions, deletions)
         VALUES
           ('octo/alpha#1', 1, 'octo/alpha', 'user:alice', 'MERGED', 'First change',
            '2026-01-10T18:00:00Z', '2026-01-10', '10:00', 100, 10),
           ('octo/alpha#2', 2, 'octo/alpha', 'user:bob', 'OPEN', 'Second change',
            '2026-04-10T18:00:00Z', '2026-04-10', '10:00', 50, 5),
           ('octo/beta#1', 1, 'octo/beta', 'user:alice', 'MERGED', 'Beta feature',
            '2026-04-10T19:00:00Z', '2026-04-10', '10:00', 20, 2);
         INSERT INTO fact_reviews (review_key, pr_key, reviewer_key, state, submitted_at,
             submitted_date_key, submitted_time_key)
         VALUES ('R1', 'octo/alpha#1', 'user:bob', 'APPROVED', '2026-01-10T19:00:00Z',
             '2026-01-10', '10:00');",
    )
    .unwrap();
}

fn rows(conn: &Connection, query: &QueryBuilder) -> Vec<PullRequestSummary> {
    let statement = query.pull_requests();
    let mut prepared = conn.prepare(&statement.sql).unwrap();
    let rows = prepared
        .query_map(rusqlite::params_from_iter(bound(&statement)), |row| {
            Ok(PullRequestRecord {
                pr_key: row.get(0)?,
                number: row.get(1)?,
                repo_key: row.get(2)?,
                author_key: row.get(3)?,
                state: row.get(4)?,
                title: row.get(5)?,
                created_at: row.get(6)?,
                merged_at: row.get(7)?,
                comment_count: row.get(8)?,
                review_count: row.get(9)?,
                additions: row.get(10)?,
                deletions: row.get(11)?,
            })
        })
        .unwrap();
    rows.map(|row| summarize(row.unwrap())).collect()
}

fn single(conn: &Connection, statement: &Statement) -> i64 {
    conn.query_row(
        &statement.sql,
        rusqlite::params_from_iter(bound(statement)),
        |row| row.get(0),
    )
    .unwrap()
}

fn count(conn: &Connection, query: &QueryBuilder) -> i64 {
    single(conn, &query.count())
}

fn grouped(conn: &Connection, statement: &Statement) -> Vec<(String, u64)> {
    let mut prepared = conn.prepare(&statement.sql).unwrap();
    let rows = prepared
        .query_map(rusqlite::params_from_iter(bound(statement)), |row| {
            Ok((row.get(0)?, row.get::<_, i64>(1)? as u64))
        })
        .unwrap();
    rows.map(|row| row.unwrap()).collect()
}

fn by_author(conn: &Connection, login: &str) -> QueryBuilder {
    QueryBuilder::new().author(login, &known_keys(conn, login))
}

fn reviewed_by(conn: &Connection, login: &str) -> QueryBuilder {
    QueryBuilder::new().reviewer(login, &known_keys(conn, login))
}

fn resolve(conn: &Connection, login: &str) -> Vec<String> {
    resolve_entity_keys(login, &known_keys(conn, login))
}

#[test]
fn filters_compose_and_execute() {
    let conn = open();
    seed(&conn);

    let merged_by_alice = rows(&conn, &by_author(&conn, "Alice").merged());
    assert_eq!(merged_by_alice.len(), 2);

    let q1_count = count(&conn, &QueryBuilder::new().period_str("2026-Q1"));
    assert_eq!(q1_count, 1);

    let reviewed_by_bob = count(&conn, &reviewed_by(&conn, "bob"));
    assert_eq!(reviewed_by_bob, 1);

    let org_count = count(&conn, &QueryBuilder::new().org("octo"));
    assert_eq!(org_count, 3);

    let statement = by_author(&conn, "alice").lines_changed();
    let changed: (i64, i64) = conn
        .query_row(
            &statement.sql,
            rusqlite::params_from_iter(bound(&statement)),
            |row| Ok((row.get(0)?, row.get(1)?)),
        )
        .unwrap();
    assert_eq!(changed, (120, 12));
}

#[test]
fn grouped_counts_and_outputs() {
    let conn = open();
    seed(&conn);

    let by_state = grouped(&conn, &QueryBuilder::new().count_by_state());
    assert_eq!(by_state[0], ("MERGED".to_string(), 2));

    let by_author = grouped(&conn, &QueryBuilder::new().count_by_author());
    assert_eq!(by_author[0], ("user:alice".to_string(), 2));

    let by_period = grouped(&conn, &QueryBuilder::new().count_by_period());
    assert_eq!(by_period.len(), 2);

    assert_eq!(rows(&conn, &QueryBuilder::new().merged()).len(), 2);

    let csv = to_csv(&rows(&conn, &QueryBuilder::new()));
    assert!(csv.starts_with("pr_key,"));
    assert_eq!(csv.lines().count(), 4);
}

#[test]
fn pagination_and_ordering() {
    let conn = open();
    seed(&conn);
    let page = rows(&conn, &QueryBuilder::new().limit(1).offset(1));
    assert_eq!(page.len(), 1);
    // Ordered created_at DESC; offset 1 skips the newest (beta 19:00Z).
    assert_eq!(page[0].pr_key, "octo/alpha#2");
}

#[test]
fn a_count_is_the_number_of_listed_rows() {
    let conn = open();
    seed(&conn);
    conn.execute_batch(
        "INSERT INTO fact_reviews (review_key, pr_key, reviewer_key, state, submitted_at,
             submitted_date_key, submitted_time_key)
         VALUES ('R2', 'octo/alpha#1', 'user:bob', 'COMMENTED', '2026-01-10T20:00:00Z',
             '2026-01-10', '10:00'),
                ('R3', 'octo/beta#1', 'user:bob', 'APPROVED', '2026-04-10T20:00:00Z',
             '2026-04-10', '10:00');",
    )
    .unwrap();
    assert_eq!(rows(&conn, &reviewed_by(&conn, "bob")).len(), 2);
    assert_eq!(count(&conn, &reviewed_by(&conn, "bob")), 2, "two reviews count once");
    assert_eq!(count(&conn, &reviewed_by(&conn, "bob").limit(1).offset(7)), 2);
    assert_eq!(count(&conn, &QueryBuilder::new().limit(0)), 3);
}

#[test]
fn bare_login_matches_bot_entities() {
    let conn = open();
    seed(&conn);
    conn.execute_batch(
        "INSERT INTO dim_entities (entity_key, entity_type, login, is_human, is_bot, name)
         VALUES ('bot:github-actions', 'bot', 'github-actions', 0, 1, 'github-actions');
         INSERT INTO fact_reviews (review_key, pr_key, reviewer_key, state, submitted_at,
             submitted_date_key, submitted_time_key)
         VALUES ('R-BOT', 'octo/alpha#2', 'bot:github-actions', 'APPROVED',
             '2026-04-10T20:00:00Z', '2026-04-10', '10:00');",
    )
    .unwrap();

    let bare = count(&conn, &reviewed_by(&conn, "GitHub-Actions"));
    assert_eq!(bare, 1, "a bare login must reach a bot that reviewed");

    let prefixed = count(&conn, &reviewed_by(&conn, "bot:github-actions"));
    assert_eq!(prefixed, 1, "explicit namespace still resolves");

    let unknown = count(&conn, &reviewed_by(&conn, "nobody"));
    assert_eq!(unknown, 0, "an unknown login must not widen the result set");

    let members = vec![("github-actions".to_string(), known_keys(&conn, "github-actions"))];
    let bot_author = count(&conn, &QueryBuilder::new().authors(&members));
    assert_eq!(bot_author, 0, "the bot authored no PRs in this fixture");
}

#[test]
fn entity_key_resolution_and_bare_reduction() {
    let conn = open();
    seed(&conn);
    conn.execute_batch(
        "INSERT INTO dim_entities (entity_key, entity_type, login, is_human, is_bot, name)
         VALUES ('bot:github-actions', 'bot', 'github-actions', 0, 1, 'github-actions'),
                ('user:shared-name', 'user', 'shared-name', 1, 0, 'shared-name'),
                ('bot:shared-name', 'bot', 'shared-name', 0, 1, 'shared-name');",
    )
    .unwrap();

    assert_eq!(resolve(&conn, "Alice"), vec!["user:alice"]);
    assert_eq!(resolve(&conn, "GitHub-Actions"), vec!["bot:github-actions"]);
    // A login present in both namespaces matches both, rather than one.
    assert_eq!(
        resolve(&conn, "shared-name"),
        vec!["bot:shared-name", "user:shared-name"]
    );
    // Explicit input is honored verbatim (lowercased).
    assert_eq!(resolve(&conn, "Bot:GitHub-Actions"), vec!["bot:github-actions"]);
    // An unknown login keeps the historical spelling: still selective.
    assert_eq!(resolve(&conn, "nobody"), vec!["user:nobody"]);

    assert_eq!(to_bare_login("user:Alice"), "alice");
    assert_eq!(to_bare_login("BOT:GitHub-Actions"), "github-actions");
    assert_eq!(to_bare_login("Alice"), "alice");
    // An unrecognized prefix is not a namespace and must survive intact.
    assert_eq!(to_bare_login("team:backend"), "team:backend");
}

fn raw_query(conn: &Connection, sql: &str) -> Result<Vec<i64>, Error> {
    validate_select_only(sql)?;
    let mut prepared = conn
        .prepare(sql)
        .map_err(|error| Error::Database(error.to_string()))?;
    let rows = prepared
        .query_map([], |row| row.get(0))
        .map_err(|error| Error::Database(error.to_string()))?;
    rows.map(|row| row.map_err(|error| Error::Database(error.to_string())))
        .collect()
}

#[test]
fn raw_query_is_select_only() {
    let conn = open();
    seed(&conn);
    let rows = raw_query(&conn, "SELECT COUNT(*) AS n FROM fact_pull_requests").unwrap();
    assert_eq!(rows[0], 3);
    assert!(raw_query(&conn, "DELETE FROM fact_pull_requests").is_err());
    assert!(raw_query(&conn, "SELECT 1; DROP TABLE issues").is_err());
}

#[test]
fn a_trailing_semicolon_is_no_second_statement() {
    assert!(validate_select_only("  select 1 ; ").is_ok());
    assert!(validate_select_only("WITH x AS (SELECT 1) SELECT * FROM x").is_ok());
    assert!(matches!(validate_select_only(""), Err(Error::InvalidArgument(_))));
    assert!(validate_select_only("PRAGMA user_version").is_err());
}

#[test]
fn a_write_behind_table_expressions_is_refused() {
    let refused = [
        "WITH x AS (SELECT 1) DELETE FROM fact_pull_requests",
        "WITH x AS (SELECT 1), y AS (SELECT 2) UPDATE issues SET title = (SELECT 'SELECT')",
        "with x(a) as (select ') select ') insert into issues select * from x",
        "WITH x AS (SELECT 1) /* SELECT */ REPLACE INTO issues VALUES (1)",
        "WITH x AS (SELECT 1) -- SELECT\n DELETE FROM issues",
        "WITH x AS (SELECT 1 /* ) SELECT */) DELETE FROM issues",
        "WITH [a) SELECT] AS (SELECT \")\") DELETE FROM issues",
        "WITH x AS (SELECT 1) VALUES (1)",
        "WITH x AS (SELECT 1",
        "WITH",
    ];
    for sql in refused {
        assert!(
            matches!(validate_select_only(sql), Err(Error::InvalidArgument(_))),
            "{}",
            sql
        );
    }
    let accepted = [
        "WITH x AS (SELECT 1) SELECT * FROM x",
        "with recursive n(i) as (select 1 union all select i + 1 from n where i < 3) select i from n",
        "WITH x AS MATERIALIZED (SELECT (1)), \"y (\"(a) AS (SELECT 'it''s (') SELECT(2) FROM x",
        "WITH x AS (SELECT 4/2 - 1 AS a) -- DELETE (\n/* UPDATE ( **/ SELECT replace(a, 'x', 'y') FROM x;",
        "SELECT 1",
    ];
    let conn = open();
    for sql in accepted {
        assert!(validate_select_only(sql).is_ok(), "{}", sql);
        assert!(conn.prepare(sql).unwrap().readonly());
    }
    assert_eq!(raw_query(&conn, accepted[1]).unwrap(), vec![1, 2, 3]);
}

#[test]
fn the_keyword_behind_the_tables_is_the_first_word_behind_a_group() {
    assert_eq!(keyword_behind_tables("with x(a) as (select 1) delete from x").unwrap(), "DELETE");
    assert_eq!(keyword_behind_tables("WITH x AS (SELECT 1), y AS (SELECT 2) Select 1").unwrap(), "SELECT");
    assert!(keyword_behind_tables("SELECT 1").is_none());
}

#[test]
fn dates_periods_and_labels_narrow_a_query() {
    let conn = open();
    seed(&conn);
    conn.execute_batch(
        "INSERT INTO labels (id, repo_key, name) VALUES ('L1', 'octo/alpha', 'bug');
         INSERT INTO pr_labels (pr_key, label_id) VALUES ('octo/alpha#2', 'L1');",
    )
    .unwrap();
    let first = Date::parse("2026-01-10").unwrap();
    let second = Date::parse("2026-04-10").unwrap();
    assert_eq!(count(&conn, &QueryBuilder::new().since(second)), 2);
    assert_eq!(count(&conn, &QueryBuilder::new().until(first)), 1);
    assert_eq!(count(&conn, &QueryBuilder::new().between(first, second)), 3);
    assert_eq!(count(&conn, &QueryBuilder::new().label("bug")), 1);
    assert_eq!(count(&conn, &QueryBuilder::new().period(Period::Quarter(2026, 2))), 2);
    assert_eq!(count(&conn, &QueryBuilder::new().within(Period::Rolling(2, second))), 2);
    assert_eq!(count(&conn, &QueryBuilder::new().within(Period::Month(2026, 1))), 1);
    assert_eq!(count(&conn, &QueryBuilder::new().repo("Octo/Beta")), 1);
    assert_eq!(count(&conn, &QueryBuilder::new().open()), 1);
    assert_eq!(count(&conn, &QueryBuilder::new().closed()), 0);
    assert_eq!(
        count(&conn, &QueryBuilder::new().state(PrState::Open).state(PrState::Merged)),
        3
    );
}

#[test]
fn selections_combine_names_and_groups() {
    let conn = open();
    seed(&conn);
    let selection = Selection {
        author: Some("alice".to_string()),
        reviewer: None,
        repo: Some("octo/alpha".to_string()),
        org: Some("OCTO".to_string()),
        label: None,
    };
    let lookups = Lookups {
        author_keys: known_keys(&conn, "alice"),
        reviewer_keys: vec![],
        group: Some(GroupFilter::Repos(vec!["octo/Beta".to_string()])),
    };
    assert_eq!(count(&conn, &QueryBuilder::select(&selection, &lookups)), 2);

    let lookups = Lookups {
        author_keys: known_keys(&conn, "alice"),
        reviewer_keys: vec![],
        group: Some(GroupFilter::Users(vec![("bob".to_string(), known_keys(&conn, "bob"))])),
    };
    let query = QueryBuilder::select(&selection, &lookups);
    assert_eq!(query.authors, vec!["user:alice", "user:bob"]);
    assert_eq!(count(&conn, &query), 2);
}

#[test]
fn the_shown_sql_holds_its_parameters() {
    let shown = QueryBuilder::new().repo("a/b").merged().to_sql();
    assert!(shown.contains("MERGED"), "{shown}");
    assert!(shown.contains("a/b"), "{shown}");
}

#[test]
fn authors_are_shown_by_their_logins() {
    let conn = open();
    seed(&conn);
    let row = &rows(&conn, &QueryBuilder::new().repo("octo/beta"))[0];
    assert_eq!(row.author, "alice");
    assert_eq!(row.author_type, "user");
    assert_eq!(row.author_key, "user:alice");

    assert_eq!(entity_namespace("bot:builder"), "bot");
    assert_eq!(entity_namespace("alice"), "user");
    assert_eq!(display_identity("dependabot", "bot"), "dependabot [bot]");
    assert_eq!(display_identity("dependabot", "user"), "dependabot");
    assert_eq!(author_label("bot:dependabot"), "dependabot [bot]");
    let labeled = label_authors(&vec![("user:a".to_string(), 2), ("bot:a".to_string(), 1)]);
    assert_eq!(labeled, vec![("a".to_string(), 2), ("a [bot]".to_string(), 1)]);
}

#[test]
fn csv_fields_are_quoted_where_they_have_to_be() {
    assert_eq!(csv_escape("plain"), "plain");
    assert_eq!(csv_escape("a,b"), "\"a,b\"");
    assert_eq!(csv_escape("say \"hi\""), "\"say \"\"hi\"\"\"");
    assert_eq!(csv_escape("two\nlines"), "\"two\nlines\"");
    let csv = to_csv(&vec![]);
    assert_eq!(csv.lines().count(), 1);
    assert!(csv.contains("author_type"));
}

#[test]
fn states_are_read_in_any_case() {
    assert_eq!(parse_state("Merged"), Ok(PrState::Merged));
    assert_eq!(parse_state("OPEN"), Ok(PrState::Open));
    assert_eq!(parse_state("closed"), Ok(PrState::Closed));
    assert_eq!(parse_state("Reopened"), Err("reopened".to_string()));
}
