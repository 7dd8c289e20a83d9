use githubdw::search::{
    fts_quote, hit_of, kinds, merge_hits, search_statement, HitKind, HitRow, SearchHit,
    SearchOptions, SearchScope,
};
use githubdw::sql::{SqlValue, Statement};
use githubdw::storage::schema;
use rusqlite::types::Value;
use rusqlite::{Connection, Row};
use rusqlite_migration::{Migrations, M};

fn open() -> Connection {
    let mut conn = Connection::open_in_memory().expect("open in-memory db");
    let steps: Vec<M<'static>> = schema::migrations().into_iter().map(M::up).collect();
    conn.pragma_update(None, "foreign_keys", "OFF").expect("foreign keys off");
    Migrations::new(steps).to_latest(&mut conn).expect("migrate");
    conn.pragma_update(None, "foreign_keys", "ON").expect("foreign keys on");
    conn
}

fn bound(statement: &Statement) -> Vec<Value> {
    statement
        .params
        .iter()
        .map(|value| match value {
            SqlValue::Null => Value::Null,
            SqlValue::Integer(n) => Value::Integer(*n),
            SqlValue::Text(text) => Value::Text(text.clone()),
        })
        .collect()
}

/// The place of a rank in the order of ranks.
fn rank_key(rank: f64) -> i64 {
    let bits = (rank + 0.0).to_bits() as i64;
    if bits < 0 {
        bits ^ i64::MAX
    } else {
        bits
    }
}

fn hit_row(kind: HitKind, row: &Row<'_>) -> rusqlite::Result<HitRow> {
    Ok(match kind {
        HitKind::PullRequest | HitKind::Issue => HitRow {
            key: row.get(0)?,
            repository: row.get(1)?,
            title: row.get(2)?,
            author_key: row.get(3)?,
            state: row.get(4)?,
            snippet: row.get(5)?,
            rank: rank_key(row.get(6)?),
        },
        HitKind::ReviewComment => HitRow {
            key: row.get(1)?,
            repository: row.get(2)?,
            title: row.get(3)?,
            author_key: row.get(4)?,
            state: None,
            snippet: row.get(5)?,
            rank: rank_key(row.get(6)?),
        },
        HitKind::IssueComment => HitRow {
            key: row.get(1)?,
            repository: None,
            title: None,
            author_key: row.get(2)?,
            state: None,
            snippet: row.get(3)?,
            rank: rank_key(row.get(4)?),
        },
    })
}

fn search(conn: &Connection, query: &str, options: &SearchOptions) -> Vec<SearchHit> {
    let mut hits = Vec::new();
    for kind in kinds(options.scope) {
        let statement = search_statement(kind, query, options);
        let mut prepared = conn.prepare(&statement.sql).unwrap();
        let rows = prepared
            .query_map(rusqlite::params_from_iter(bound(&statement)), |row| hit_row(kind, row))
            .unwrap();
        for row in rows {
            hits.push(hit_of(kind, row.unwrap()));
        }
    }
    merge_hits(hits, options.effective_limit())
}

fn seed(conn: &Connection) {
    conn.execute_batch(
        "INSERT INTO dim_entities (entity_key, entity_type, login, is_human, is_bot, name)
         VALUES ('user:alice', 'user', 'alice', 1, 0, 'alice');
         INSERT INTO dim_repositories (repo_key, owner, name)
         VALUES ('octo/alpha', 'octo', 'alpha'), ('octo/beta', 'octo', 'beta');
         INSERT INTO dim_date (date_key, year, quarter, month, day_of_month, day_of_week,
             is_weekend, week_of_year, week_key, month_key, quarter_key, year_key, half_key)
         VALUES ('2026-01-10', 2026, 1, 1, 10, 6, 1, 2, '2026-W02', '2026-01', '2026-Q1', '2026', '2026-H1');
         INSERT INTO dim_time (time_key, hour, hour_12, am_pm, time_bucket, is_core_hours)
         VALUES ('10:00', 10, 10, 'AM', 'Morning', 1);
         INSERT INTO fact_pull_requests (pr_key, number, repo_key, author_key, state, title, body,
             created_at, created_date_key, created_time_key)
         VALUES ('octo/alpha#1', 1, 'octo/alpha', 'user:alice', 'MERGED',
                 'Fix connection pool exhaustion', 'Pool ran dry under load',
                 '2026-01-10T18:00:00Z', '2026-01-10', '10:00'),
                ('octo/beta#2', 2, 'octo/beta', 'user:alice', 'OPEN',
                 'Add retry logic', 'Retries with backoff',
                 '2026-01-10T19:00:00Z', '2026-01-10', '10:00');
         INSERT INTO issues (id, repo_key, number, title, body, state, created_at, updated_at)
         VALUES ('ISS1', 'octo/alpha', 5, 'Connection timeout on startup', 'Cold pool issue',
                 'open', '2026-01-10T18:00:00Z', '2026-01-10T18:00:00Z');
         INSERT INTO fact_review_comments (comment_key, pr_key, author_key, body,
             created_at, created_date_key, created_time_key)
         VALUES ('RC1', 'octo/alpha#1', 'user:alice', 'The pool size should be configurable',
                 '2026-01-10T18:30:00Z', '2026-01-10', '10:00');",
    )
    .unwrap();
}

fn scoped(scope: SearchScope) -> SearchOptions {
    SearchOptions { scope, ..SearchOptions::default() }
}

fn inside(repository: &str) -> SearchOptions {
    SearchOptions { repository: Some(repository.to_string()), ..SearchOptions::default() }
}

#[test]
fn searches_across_corpora_with_snippets() {
    let conn = open();
    seed(&conn);
    let hits = search(&conn, "connection", &SearchOptions::default());
    assert_eq!(hits.len(), 2, "PR title + issue title");
    assert!(hits.iter().any(|hit| hit.kind == "pull_request"));
    assert!(hits.iter().any(|hit| hit.kind == "issue"));
    assert!(hits.iter().all(|hit| hit.snippet.contains('[')));
}

#[test]
fn substring_search_hits_partial_words() {
    let conn = open();
    seed(&conn);
    // 'onnection' is a partial word — trigram proof.
    let hits = search(&conn, "onnection", &SearchOptions::default());
    assert!(!hits.is_empty());
}

#[test]
fn scope_and_repository_filters() {
    let conn = open();
    seed(&conn);

    let pr_only = search(&conn, "pool", &scoped(SearchScope::PullRequests));
    assert!(pr_only.iter().all(|hit| hit.kind == "pull_request"));

    let comments = search(&conn, "configurable", &scoped(SearchScope::Comments));
    assert_eq!(comments.len(), 1);
    assert_eq!(comments[0].kind, "review_comment");
    assert_eq!(comments[0].key, "octo/alpha#1");

    let beta_only = search(&conn, "retry", &inside("octo/beta"));
    assert_eq!(beta_only.len(), 1);
    let alpha_scoped = search(&conn, "retry", &inside("octo/alpha"));
    assert!(alpha_scoped.is_empty());
}

#[test]
fn conversation_comments_are_found_by_their_parent() {
    let conn = open();
    seed(&conn);
    conn.execute_batch(
        "INSERT INTO fact_issue_comments (comment_key, parent_type, parent_key, author_key, body,
             created_at)
         VALUES ('IC1', 'pull_request', 'octo/alpha#1', 'user:alice', 'quoted \"phrase\" here',
                 '2026-01-10T18:30:00Z');",
    )
    .unwrap();
    let hits = search(&conn, "\"phrase\"", &scoped(SearchScope::Comments));
    assert_eq!(hits.len(), 1);
    assert_eq!(hits[0].kind, "issue_comment");
    assert_eq!(hits[0].key, "octo/alpha#1");
    assert_eq!(hits[0].author.as_deref(), Some("alice"));
    assert_eq!(hits[0].author_type.as_deref(), Some("user"));
    assert_eq!(hits[0].title, None);
}

#[test]
fn conversation_comments_belong_to_one_repository() {
    let conn = open();
    conn.execute_batch(
        "INSERT INTO dim_entities (entity_key, entity_type, login, is_human, is_bot, name)
         VALUES ('user:alice', 'user', 'alice', 1, 0, 'alice');
         INSERT INTO dim_repositories (repo_key, owner, name)
         VALUES ('octo/alpha', 'octo', 'alpha'), ('octo/alphabet', 'octo', 'alphabet'),
                ('octo/a_pha', 'octo', 'a_pha');
         INSERT INTO issues (id, repo_key, number, title, body, state, created_at, updated_at)
         VALUES ('ISS1', 'octo/alpha', 5, 'An issue', NULL, 'open',
                 '2026-01-10T18:00:00Z', '2026-01-10T18:00:00Z');
         INSERT INTO fact_issue_comments (comment_key, parent_type, parent_key, author_key, body,
             created_at)
         VALUES ('IC1', 'pull_request', 'octo/alpha#1', 'user:alice', 'shared words',
                 '2026-01-10T18:30:00Z'),
                ('IC2', 'pull_request', 'octo/alphabet#1', 'user:alice', 'shared words',
                 '2026-01-10T18:30:00Z'),
                ('IC3', 'issue', 'ISS1', 'user:alice', 'shared words', '2026-01-10T18:30:00Z');",
    )
    .unwrap();
    let found = |repository: &str| {
        let options = SearchOptions { scope: SearchScope::Comments, ..inside(repository) };
        let mut keys: Vec<String> = search(&conn, "shared words", &options)
            .into_iter()
            .map(|hit| hit.key)
            .collect();
        keys.sort();
        keys
    };
    assert_eq!(found("octo/alpha"), ["ISS1", "octo/alpha#1"]);
    assert_eq!(found("octo/alphabet"), ["octo/alphabet#1"]);
    assert!(found("octo/a_pha").is_empty(), "no letter of a name stands for another");
}

#[test]
fn queries_are_quoted_as_literals() {
    assert_eq!(fts_quote("rate limit"), "\"rate limit\"");
    assert_eq!(fts_quote("say \"hi\""), "\"say \"\"hi\"\"\"");
}

#[test]
fn limits_default_to_twenty() {
    assert_eq!(SearchOptions::default().effective_limit(), 20);
    assert_eq!(SearchOptions { limit: 3, ..SearchOptions::default() }.effective_limit(), 3);
}

fn hit(key: &str, rank: i64) -> SearchHit {
    hit_of(
        HitKind::Issue,
        HitRow {
            key: key.to_string(),
            repository: None,
            title: None,
            author_key: Some("bot:builder".to_string()),
            state: None,
            snippet: String::new(),
            rank,
        },
    )
}

#[test]
fn better_ranks_come_first_and_ties_keep_their_order() {
    let hits = vec![hit("a", 5), hit("b", -2), hit("c", 5), hit("d", -2), hit("e", 0)];
    let keys: Vec<String> = merge_hits(hits, 10).into_iter().map(|hit| hit.key).collect();
    assert_eq!(keys, vec!["b", "d", "e", "a", "c"]);

    let hits = vec![hit("a", 5), hit("b", -2), hit("c", 5)];
    let keys: Vec<String> = merge_hits(hits, 2).into_iter().map(|hit| hit.key).collect();
    assert_eq!(keys, vec!["b", "a"]);
    assert_eq!(hit("a", 5).author_type.as_deref(), Some("bot"));
}

#[test]
fn scopes_name_their_corpora() {
    assert_eq!(kinds(SearchScope::All).len(), 4);
    assert_eq!(
        kinds(SearchScope::Comments),
        vec![HitKind::ReviewComment, HitKind::IssueComment]
    );
    assert_eq!(kinds(SearchScope::Issues), vec![HitKind::Issue]);
    assert_eq!(SearchScope::default(), SearchScope::All);
}
