//! The schema of the warehouse: forward-only migrations and the check that a
//! migrated warehouse is sound.

use vstd::prelude::*;
use crate::error::Error;
use crate::text::join3;

verus! {

/// Step one: the star schema, the sync state and the full-text tables.
pub const INITIAL_SCHEMA: &'static str = "
CREATE TABLE config (
    key   TEXT PRIMARY KEY,
    value TEXT NOT NULL
);
INSERT INTO config (key, value) VALUES
    ('timezone', 'America/Los_Angeles'),
    ('core_hours_start', '9'),
    ('core_hours_end', '17'),
    ('bot_login_suffix', '[bot]');

CREATE TABLE dim_entities (
    entity_key  TEXT PRIMARY KEY,
    entity_type TEXT NOT NULL,
    login       TEXT NOT NULL,
    is_human    INTEGER NOT NULL DEFAULT 1,
    is_bot      INTEGER NOT NULL DEFAULT 0,
    name        TEXT
);
CREATE INDEX idx_entities_type ON dim_entities (entity_type);
CREATE INDEX idx_entities_login ON dim_entities (login);

CREATE TABLE dim_repositories (
    repo_key         TEXT PRIMARY KEY,
    owner            TEXT NOT NULL,
    name             TEXT NOT NULL,
    primary_language TEXT,
    is_fork          INTEGER NOT NULL DEFAULT 0,
    is_private       INTEGER NOT NULL DEFAULT 0,
    default_branch   TEXT,
    created_at       TEXT
);
CREATE INDEX idx_repositories_owner ON dim_repositories (owner);

CREATE TABLE dim_date (
    date_key         TEXT PRIMARY KEY,
    year             INTEGER NOT NULL,
    quarter          INTEGER NOT NULL,
    month            INTEGER NOT NULL,
    day_of_month     INTEGER NOT NULL,
    day_of_week      INTEGER NOT NULL,
    is_weekend       INTEGER NOT NULL,
    week_of_year     INTEGER NOT NULL,
    week_key         TEXT NOT NULL,
    month_key        TEXT NOT NULL,
    quarter_key      TEXT NOT NULL,
    year_key         TEXT NOT NULL,
    half_key         TEXT NOT NULL,
    day_of_quarter   INTEGER,
    day_of_year      INTEGER,
    day_of_half      INTEGER,
    week_of_quarter  INTEGER,
    month_of_quarter INTEGER,
    month_of_half    INTEGER
);
CREATE INDEX idx_date_week ON dim_date (week_key);
CREATE INDEX idx_date_month ON dim_date (month_key);
CREATE INDEX idx_date_quarter ON dim_date (quarter_key);
CREATE INDEX idx_date_half ON dim_date (half_key);
CREATE INDEX idx_date_year ON dim_date (year_key);

CREATE TABLE dim_period (
    period_key  TEXT PRIMARY KEY,
    period_type TEXT NOT NULL,
    start_date  TEXT NOT NULL,
    end_date    TEXT NOT NULL
);

CREATE TABLE dim_time (
    time_key      TEXT PRIMARY KEY,
    hour          INTEGER NOT NULL,
    hour_12       INTEGER NOT NULL,
    am_pm         TEXT NOT NULL,
    time_bucket   TEXT NOT NULL,
    is_core_hours INTEGER NOT NULL
);

CREATE TABLE fact_pull_requests (
    pr_key           TEXT PRIMARY KEY,
    number           INTEGER NOT NULL,
    repo_key         TEXT NOT NULL REFERENCES dim_repositories (repo_key),
    author_key       TEXT NOT NULL REFERENCES dim_entities (entity_key),
    state            TEXT NOT NULL,
    is_draft         INTEGER NOT NULL DEFAULT 0,
    title            TEXT,
    body             TEXT,
    base_ref         TEXT,
    head_ref         TEXT,
    created_at       TEXT NOT NULL,
    updated_at       TEXT,
    merged_at        TEXT,
    closed_at        TEXT,
    merged_by_key    TEXT REFERENCES dim_entities (entity_key),
    created_date_key TEXT NOT NULL REFERENCES dim_date (date_key),
    created_time_key TEXT NOT NULL REFERENCES dim_time (time_key),
    updated_date_key TEXT REFERENCES dim_date (date_key),
    updated_time_key TEXT REFERENCES dim_time (time_key),
    merged_date_key  TEXT REFERENCES dim_date (date_key),
    comment_count    INTEGER NOT NULL DEFAULT 0,
    review_count     INTEGER NOT NULL DEFAULT 0,
    changed_files    INTEGER NOT NULL DEFAULT 0,
    additions        INTEGER NOT NULL DEFAULT 0,
    deletions        INTEGER NOT NULL DEFAULT 0
);
CREATE INDEX idx_prs_repo ON fact_pull_requests (repo_key);
CREATE INDEX idx_prs_author ON fact_pull_requests (author_key);
CREATE INDEX idx_prs_created ON fact_pull_requests (created_date_key);
CREATE INDEX idx_prs_state ON fact_pull_requests (state);

CREATE TABLE fact_reviews (
    review_key         TEXT PRIMARY KEY,
    pr_key             TEXT NOT NULL REFERENCES fact_pull_requests (pr_key),
    reviewer_key       TEXT NOT NULL REFERENCES dim_entities (entity_key),
    state              TEXT NOT NULL,
    body               TEXT,
    submitted_at       TEXT,
    submitted_date_key TEXT REFERENCES dim_date (date_key),
    submitted_time_key TEXT REFERENCES dim_time (time_key)
);
CREATE INDEX idx_reviews_pr ON fact_reviews (pr_key);
CREATE INDEX idx_reviews_reviewer ON fact_reviews (reviewer_key);

CREATE TABLE fact_review_comments (
    comment_key      TEXT PRIMARY KEY,
    pr_key           TEXT NOT NULL REFERENCES fact_pull_requests (pr_key),
    review_key       TEXT REFERENCES fact_reviews (review_key),
    author_key       TEXT NOT NULL REFERENCES dim_entities (entity_key),
    in_reply_to      TEXT,
    path             TEXT,
    line             INTEGER,
    body             TEXT,
    created_at       TEXT NOT NULL,
    created_date_key TEXT REFERENCES dim_date (date_key),
    created_time_key TEXT REFERENCES dim_time (time_key)
);
CREATE INDEX idx_review_comments_pr ON fact_review_comments (pr_key);
CREATE INDEX idx_review_comments_author ON fact_review_comments (author_key);

CREATE TABLE fact_issue_comments (
    comment_key      TEXT PRIMARY KEY,
    parent_type      TEXT NOT NULL,
    parent_key       TEXT NOT NULL,
    author_key       TEXT NOT NULL REFERENCES dim_entities (entity_key),
    in_reply_to      TEXT,
    body             TEXT,
    created_at       TEXT NOT NULL,
    created_date_key TEXT REFERENCES dim_date (date_key),
    created_time_key TEXT REFERENCES dim_time (time_key)
);
CREATE INDEX idx_issue_comments_parent ON fact_issue_comments (parent_type, parent_key);
CREATE INDEX idx_issue_comments_author ON fact_issue_comments (author_key);

CREATE TABLE fact_check_runs (
    check_run_key TEXT PRIMARY KEY,
    pr_key        TEXT NOT NULL REFERENCES fact_pull_requests (pr_key),
    head_sha      TEXT,
    name          TEXT NOT NULL,
    status        TEXT,
    conclusion    TEXT,
    started_at    TEXT,
    completed_at  TEXT
);
CREATE INDEX idx_check_runs_pr ON fact_check_runs (pr_key);

CREATE TABLE fact_file_diffs (
    file_diff_key TEXT PRIMARY KEY,
    pr_key        TEXT NOT NULL REFERENCES fact_pull_requests (pr_key),
    repo_key      TEXT NOT NULL REFERENCES dim_repositories (repo_key),
    file_path     TEXT NOT NULL,
    previous_path TEXT,
    change_type   TEXT,
    patch         TEXT,
    additions     INTEGER NOT NULL DEFAULT 0,
    deletions     INTEGER NOT NULL DEFAULT 0
);
CREATE INDEX idx_file_diffs_pr ON fact_file_diffs (pr_key);

CREATE TABLE labels (
    id          TEXT PRIMARY KEY,
    repo_key    TEXT NOT NULL REFERENCES dim_repositories (repo_key),
    name        TEXT NOT NULL,
    color       TEXT,
    description TEXT
);
CREATE INDEX idx_labels_name ON labels (name);

CREATE TABLE pr_labels (
    pr_key   TEXT NOT NULL REFERENCES fact_pull_requests (pr_key),
    label_id TEXT NOT NULL REFERENCES labels (id),
    PRIMARY KEY (pr_key, label_id)
);

CREATE TABLE milestones (
    id          TEXT PRIMARY KEY,
    repo_key    TEXT NOT NULL REFERENCES dim_repositories (repo_key),
    number      INTEGER NOT NULL,
    title       TEXT NOT NULL,
    description TEXT,
    state       TEXT,
    due_on      TEXT,
    created_at  TEXT
);

CREATE TABLE issues (
    id               TEXT PRIMARY KEY,
    repo_key         TEXT NOT NULL REFERENCES dim_repositories (repo_key),
    number           INTEGER NOT NULL,
    title            TEXT NOT NULL,
    body             TEXT,
    state            TEXT NOT NULL,
    state_reason     TEXT,
    author_key       TEXT REFERENCES dim_entities (entity_key),
    milestone_id     TEXT REFERENCES milestones (id),
    comment_count    INTEGER NOT NULL DEFAULT 0,
    created_at       TEXT NOT NULL,
    updated_at       TEXT,
    closed_at        TEXT,
    created_date_key TEXT REFERENCES dim_date (date_key)
);
CREATE INDEX idx_issues_repo ON issues (repo_key);

CREATE TABLE issue_labels (
    issue_id TEXT NOT NULL REFERENCES issues (id),
    label_id TEXT NOT NULL REFERENCES labels (id),
    PRIMARY KEY (issue_id, label_id)
);

CREATE TABLE issue_assignees (
    issue_id   TEXT NOT NULL REFERENCES issues (id),
    entity_key TEXT NOT NULL REFERENCES dim_entities (entity_key),
    PRIMARY KEY (issue_id, entity_key)
);

CREATE TABLE sync_metadata (
    source_type         TEXT NOT NULL,
    source_id           TEXT NOT NULL,
    last_sync_at        TEXT,
    last_updated_cursor TEXT,
    PRIMARY KEY (source_type, source_id)
);

CREATE TABLE sync_locks (
    entity_key      TEXT PRIMARY KEY,
    started_at      TEXT NOT NULL,
    current_item    INTEGER NOT NULL DEFAULT 0,
    current_item_id TEXT,
    synced          INTEGER NOT NULL DEFAULT 0,
    skipped         INTEGER NOT NULL DEFAULT 0,
    failed          INTEGER NOT NULL DEFAULT 0
);

CREATE TABLE sync_jobs (
    entity_key   TEXT PRIMARY KEY,
    status       TEXT NOT NULL,
    started_at   TEXT NOT NULL,
    completed_at TEXT,
    synced       INTEGER NOT NULL DEFAULT 0,
    skipped      INTEGER NOT NULL DEFAULT 0,
    failed_items TEXT,
    error        TEXT
);

CREATE TABLE synced_ranges (
    entity_key TEXT NOT NULL,
    start_date TEXT NOT NULL,
    end_date   TEXT NOT NULL,
    synced_at  TEXT NOT NULL,
    item_count INTEGER NOT NULL DEFAULT 0,
    PRIMARY KEY (entity_key, start_date, end_date)
);

CREATE TABLE monitored_users (
    login        TEXT PRIMARY KEY,
    last_sync_at TEXT,
    sync_enabled INTEGER NOT NULL DEFAULT 1
);

CREATE TABLE monitored_repos (
    repo_key     TEXT PRIMARY KEY,
    last_sync_at TEXT,
    sync_enabled INTEGER NOT NULL DEFAULT 1
);

CREATE TABLE monitored_orgs (
    org_login    TEXT PRIMARY KEY,
    last_sync_at TEXT,
    sync_enabled INTEGER NOT NULL DEFAULT 1
);

CREATE VIRTUAL TABLE pull_requests_fts USING fts5(pr_key UNINDEXED, title, body, tokenize = 'trigram');
CREATE TRIGGER pull_requests_fts_insert AFTER INSERT ON fact_pull_requests BEGIN
    INSERT INTO pull_requests_fts (pr_key, title, body) VALUES (new.pr_key, new.title, new.body);
END;
CREATE TRIGGER pull_requests_fts_update AFTER UPDATE ON fact_pull_requests BEGIN
    DELETE FROM pull_requests_fts WHERE pr_key = old.pr_key;
    INSERT INTO pull_requests_fts (pr_key, title, body) VALUES (new.pr_key, new.title, new.body);
END;
CREATE TRIGGER pull_requests_fts_delete AFTER DELETE ON fact_pull_requests BEGIN
    DELETE FROM pull_requests_fts WHERE pr_key = old.pr_key;
END;

CREATE VIRTUAL TABLE issues_fts USING fts5(id UNINDEXED, title, body, tokenize = 'trigram');
CREATE TRIGGER issues_fts_insert AFTER INSERT ON issues BEGIN
    INSERT INTO issues_fts (id, title, body) VALUES (new.id, new.title, new.body);
END;
CREATE TRIGGER issues_fts_update AFTER UPDATE ON issues BEGIN
    DELETE FROM issues_fts WHERE id = old.id;
    INSERT INTO issues_fts (id, title, body) VALUES (new.id, new.title, new.body);
END;
CREATE TRIGGER issues_fts_delete AFTER DELETE ON issues BEGIN
    DELETE FROM issues_fts WHERE id = old.id;
END;

CREATE VIRTUAL TABLE review_comments_fts USING fts5(comment_key UNINDEXED, body, tokenize = 'trigram');
CREATE TRIGGER review_comments_fts_insert AFTER INSERT ON fact_review_comments BEGIN
    INSERT INTO review_comments_fts (comment_key, body) VALUES (new.comment_key, new.body);
END;
CREATE TRIGGER review_comments_fts_update AFTER UPDATE ON fact_review_comments BEGIN
    DELETE FROM review_comments_fts WHERE comment_key = old.comment_key;
    INSERT INTO review_comments_fts (comment_key, body) VALUES (new.comment_key, new.body);
END;
CREATE TRIGGER review_comments_fts_delete AFTER DELETE ON fact_review_comments BEGIN
    DELETE FROM review_comments_fts WHERE comment_key = old.comment_key;
END;

CREATE VIRTUAL TABLE issue_comments_fts USING fts5(comment_key UNINDEXED, body, tokenize = 'trigram');
CREATE TRIGGER issue_comments_fts_insert AFTER INSERT ON fact_issue_comments BEGIN
    INSERT INTO issue_comments_fts (comment_key, body) VALUES (new.comment_key, new.body);
END;
CREATE TRIGGER issue_comments_fts_update AFTER UPDATE ON fact_issue_comments BEGIN
    DELETE FROM issue_comments_fts WHERE comment_key = old.comment_key;
    INSERT INTO issue_comments_fts (comment_key, body) VALUES (new.comment_key, new.body);
END;
CREATE TRIGGER issue_comments_fts_delete AFTER DELETE ON fact_issue_comments BEGIN
    DELETE FROM issue_comments_fts WHERE comment_key = old.comment_key;
END;
";

/// Step two: custom groups of users and repositories.
pub const GROUPS_SCHEMA: &'static str = "
CREATE TABLE user_group (
    name        TEXT PRIMARY KEY,
    description TEXT
);
CREATE TABLE user_group_member (
    group_name TEXT NOT NULL REFERENCES user_group (name),
    login      TEXT NOT NULL,
    PRIMARY KEY (group_name, login)
);
CREATE TABLE repo_group (
    name        TEXT PRIMARY KEY,
    description TEXT
);
CREATE TABLE repo_group_member (
    group_name TEXT NOT NULL REFERENCES repo_group (name),
    repo       TEXT NOT NULL,
    PRIMARY KEY (group_name, repo)
);
";

/// Step three: summaries of pull requests.
pub const PR_SUMMARIES_SCHEMA: &'static str = "
CREATE TABLE pr_summaries (
    pr_key                   TEXT PRIMARY KEY,
    repo_key                 TEXT NOT NULL,
    number                   INTEGER NOT NULL,
    author_key               TEXT,
    headline                 TEXT NOT NULL,
    what_changed             TEXT NOT NULL,
    why_it_matters           TEXT NOT NULL,
    notability_score         INTEGER NOT NULL,
    notability_justification TEXT,
    change_types             TEXT NOT NULL,
    impact_areas             TEXT NOT NULL,
    complexity_signal        TEXT NOT NULL,
    notable_aspects          TEXT,
    technical_keywords       TEXT,
    domain_keywords          TEXT,
    context_tags             TEXT,
    prompt_version           INTEGER NOT NULL,
    source_updated_at        TEXT NOT NULL,
    is_stale                 INTEGER NOT NULL DEFAULT 0,
    runtime_ms               INTEGER,
    created_at               TEXT NOT NULL,
    updated_at               TEXT NOT NULL
);
CREATE INDEX idx_pr_summaries_repo ON pr_summaries (repo_key);
CREATE INDEX idx_pr_summaries_notability ON pr_summaries (notability_score);
";

/// Step four: entities carry their identity invariants. A login is not empty
/// and never namespaced, and a key is its type, a colon and its login.
pub const ENTITY_INVARIANTS_SCHEMA: &'static str = "
CREATE TABLE dim_entities_checked (
    entity_key  TEXT PRIMARY KEY,
    entity_type TEXT NOT NULL CHECK (entity_type IN ('user', 'bot', 'org')),
    login       TEXT NOT NULL CHECK (login <> '' AND instr(login, ':') = 0),
    is_human    INTEGER NOT NULL DEFAULT 1,
    is_bot      INTEGER NOT NULL DEFAULT 0,
    name        TEXT,
    CHECK (entity_key = entity_type || ':' || login)
);
INSERT INTO dim_entities_checked (entity_key, entity_type, login, is_human, is_bot, name)
    SELECT entity_key, entity_type, login, is_human, is_bot, name FROM dim_entities;
DROP TABLE dim_entities;
ALTER TABLE dim_entities_checked RENAME TO dim_entities;
CREATE INDEX idx_entities_type ON dim_entities (entity_type);
CREATE INDEX idx_entities_login ON dim_entities (login);
";

/// The steps in their order. Forward-only: an applied step is never edited.
pub open spec fn migration_steps() -> Seq<Seq<char>> {
    seq![
        INITIAL_SCHEMA@,
        GROUPS_SCHEMA@,
        PR_SUMMARIES_SCHEMA@,
        ENTITY_INVARIANTS_SCHEMA@,
    ]
}

/// The full, ordered migration set.
pub fn migrations() -> (steps: Vec<&'static str>)
    ensures
        steps@.len() == migration_steps().len(),
        forall|i: int| 0 <= i < steps@.len() ==> (#[trigger] steps@[i])@ == migration_steps()[i],
{
    let mut steps: Vec<&'static str> = Vec::new();
    steps.push(INITIAL_SCHEMA);
    steps.push(GROUPS_SCHEMA);
    steps.push(PR_SUMMARIES_SCHEMA);
    steps.push(ENTITY_INVARIANTS_SCHEMA);
    steps
}

/// The query for rows whose parent does not exist.
pub const INTEGRITY_SQL: &'static str = "PRAGMA foreign_key_check";

/// The verdict on a migrated warehouse, given the first row whose parent does
/// not exist, as the child and the parent table: a warehouse that lost a parent
/// row is refused.
pub fn assert_referential_integrity(orphan: Option<(String, String)>) -> (outcome: Result<
    (),
    Error,
>)
    ensures
        match orphan {
            Some((child, parent)) => outcome is Err && (outcome->Err_0 matches Error::SchemaIntegrity(
                detail,
            ) && detail@ == child@ + " holds a row with no matching "@ + parent@),
            None => outcome is Ok,
        },
{
    match orphan {
        Some((child, parent)) => Err(
            Error::SchemaIntegrity(
                join3(child.as_str(), " holds a row with no matching ", parent.as_str()),
            ),
        ),
        None => Ok(()),
    }
}

} // verus!
