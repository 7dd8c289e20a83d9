//! Core upserts for facts and dimensions.

use vstd::prelude::*;
use crate::fetch::pull_requests::ActorReference;
use crate::sql::{flag_cell, int_cell, text_cell, Cell, Command, Statement};
use crate::storage::upsert::{column, field, fields, upsert, upsert_sql, Change, Column, Field};
use crate::text::{
    copy, ends_with, finishes_with, join3, lower, lowercase, opt_str, same, split_at_first,
    split_once,
};

verus! {

// ---------------------------------------------------------------- entities

/// The account is a bot's: the API says so, or the login ends in the bot
/// suffix.
pub open spec fn is_bot_account(login: Seq<char>, actor_type: Seq<char>, suffix: Seq<char>) -> bool {
    actor_type == "Bot"@ || finishes_with(lowercase(login), lowercase(suffix))
}

/// The namespace that ingestion mints for an account.
pub open spec fn account_type(is_bot: bool) -> Seq<char> {
    if is_bot {
        "bot"@
    } else {
        "user"@
    }
}

/// The entity key of an account.
pub open spec fn account_key(login: Seq<char>, is_bot: bool) -> Seq<char> {
    account_type(is_bot) + ":"@ + lowercase(login)
}

/// The columns of an entity, and what becomes of each where the row is
/// stored already.
pub open spec fn entity_fields() -> Seq<Field> {
    seq![
        field("entity_key"@, Change::Key),
        field("entity_type"@, Change::Take),
        field("login"@, Change::Keep),
        field("is_human"@, Change::Take),
        field("is_bot"@, Change::Take),
        field("name"@, Change::Keep),
    ]
}

/// The text of the statement that upserts an entity.
pub open spec fn entity_sql() -> Seq<char> {
    upsert_sql("dim_entities"@, entity_fields())
}

fn entity_upsert() -> (statement: Statement)
    ensures
        statement@ == (Command { sql: entity_sql(), params: Seq::empty() }),
{
    let mut columns: Vec<Column> = Vec::new();
    columns.push(column("entity_key", Change::Key));
    columns.push(column("entity_type", Change::Take));
    columns.push(column("login", Change::Keep));
    columns.push(column("is_human", Change::Take));
    columns.push(column("is_bot", Change::Take));
    columns.push(column("name", Change::Keep));
    assert(fields(columns@) =~= entity_fields());
    upsert("dim_entities", &columns)
}

/// The command that upserts the entity of an account.
pub open spec fn entity_command(login: Seq<char>, is_bot: bool) -> Command {
    Command {
        sql: entity_sql(),
        params: seq![
            Cell::Text(account_key(login, is_bot)),
            Cell::Text(account_type(is_bot)),
            Cell::Text(lowercase(login)),
            flag_cell(!is_bot),
            flag_cell(is_bot),
            Cell::Text(login),
        ],
    }
}

/// Resolve an actor to a `dim_entities` row: its entity key and the statement
/// that upserts the row. Bot detection: GraphQL `__typename == "Bot"` or login
/// ending in the configured bot suffix.
pub fn ensure_entity(actor: &ActorReference, bot_suffix: &str) -> (entity: (String, Statement))
    ensures
        entity.0@ == account_key(
            actor.login@,
            is_bot_account(actor.login@, actor.actor_type@, bot_suffix@),
        ),
        entity.1@ == entity_command(
            actor.login@,
            is_bot_account(actor.login@, actor.actor_type@, bot_suffix@),
        ),
{
    let login = lower(actor.login.as_str());
    let is_bot = same(actor.actor_type.as_str(), "Bot") || ends_with(&login, &lower(bot_suffix));
    let entity_type = if is_bot {
        "bot"
    } else {
        "user"
    };
    let entity_key = join3(entity_type, ":", &login);
    let statement = entity_upsert()
        .text(&entity_key)
        .text(entity_type)
        .text(&login)
        .flag(!is_bot)
        .flag(is_bot)
        .text(actor.login.as_str());
    (entity_key, statement)
}

/// The statement that ensures the entity of deleted accounts.
pub const GHOST_SQL: &'static str = "INSERT OR IGNORE INTO dim_entities (entity_key, entity_type, login, is_human, is_bot, name)
         VALUES ('user:ghost', 'user', 'ghost', 1, 0, 'ghost')";

/// The key of the entity of deleted accounts.
pub const GHOST_KEY: &'static str = "user:ghost";

/// The command that ensures the entity of deleted accounts.
pub open spec fn ghost_command() -> Command {
    Command { sql: GHOST_SQL@, params: Seq::empty() }
}

/// The fallback entity for deleted/ghost accounts.
pub fn ensure_ghost_entity() -> (entity: (String, Statement))
    ensures
        entity.0@ == GHOST_KEY@,
        entity.1@ == ghost_command(),
{
    (copy(GHOST_KEY), Statement::new(GHOST_SQL))
}

/// Two accounts share an entity key only where their logins differ in nothing
/// but case and both are bots or both are not.
pub proof fn law_entity_keys_tell_accounts_apart(
    left: Seq<char>,
    left_bot: bool,
    right: Seq<char>,
    right_bot: bool,
)
    ensures
        account_key(left, left_bot) == account_key(right, right_bot) <==> left_bot == right_bot
            && lowercase(left) == lowercase(right),
{
    reveal_strlit("bot");
    reveal_strlit("user");
    reveal_strlit(":");
    let l = account_key(left, left_bot);
    let r = account_key(right, right_bot);
    assert(l[0] == account_type(left_bot)[0]);
    assert(r[0] == account_type(right_bot)[0]);
    if l == r {
        let prefix = (account_type(left_bot) + ":"@).len() as int;
        assert(l.skip(prefix) =~= lowercase(left));
        assert(r.skip(prefix) =~= lowercase(right));
    }
}

// ---------------------------------------------------------------- repositories

/// The columns of a repository, and what becomes of each where the row is
/// stored already.
pub open spec fn repository_fields() -> Seq<Field> {
    seq![
        field("repo_key"@, Change::Key),
        field("owner"@, Change::Keep),
        field("name"@, Change::Keep),
        field("primary_language"@, Change::Take),
        field("is_fork"@, Change::Take),
        field("is_private"@, Change::Take),
        field("default_branch"@, Change::Take),
        field("created_at"@, Change::Fill),
    ]
}

/// The text of the statement that upserts a repository.
pub open spec fn repository_sql() -> Seq<char> {
    upsert_sql("dim_repositories"@, repository_fields())
}

fn repository_upsert() -> (statement: Statement)
    ensures
        statement@ == (Command { sql: repository_sql(), params: Seq::empty() }),
{
    let mut columns: Vec<Column> = Vec::new();
    columns.push(column("repo_key", Change::Key));
    columns.push(column("owner", Change::Keep));
    columns.push(column("name", Change::Keep));
    columns.push(column("primary_language", Change::Take));
    columns.push(column("is_fork", Change::Take));
    columns.push(column("is_private", Change::Take));
    columns.push(column("default_branch", Change::Take));
    columns.push(column("created_at", Change::Fill));
    assert(fields(columns@) =~= repository_fields());
    upsert("dim_repositories", &columns)
}

/// The owner and the name in a repository key; all of it is the owner where
/// there is no slash.
pub open spec fn owner_and_name(repo_key: Seq<char>) -> (Seq<char>, Seq<char>) {
    match split_at_first(repo_key, '/') {
        Some(parts) => parts,
        None => (repo_key, Seq::empty()),
    }
}

/// The command that upserts a repository.
pub open spec fn repository_command(
    repo_key: Seq<char>,
    primary_language: Option<Seq<char>>,
    is_fork: bool,
    is_private: bool,
    default_branch: Option<Seq<char>>,
    created_at: Option<Seq<char>>,
) -> Command {
    Command {
        sql: repository_sql(),
        params: seq![
            Cell::Text(repo_key),
            Cell::Text(owner_and_name(repo_key).0),
            Cell::Text(owner_and_name(repo_key).1),
            text_cell(primary_language),
            flag_cell(is_fork),
            flag_cell(is_private),
            text_cell(default_branch),
            text_cell(created_at),
        ],
    }
}

/// Upsert a repository dimension row: the repo key ("owner/name", lowercase)
/// and the statement.
pub fn upsert_repository(
    name_with_owner: &str,
    primary_language: Option<&str>,
    is_fork: bool,
    is_private: bool,
    default_branch: Option<&str>,
    created_at: Option<&str>,
) -> (repository: (String, Statement))
    ensures
        repository.0@ == lowercase(name_with_owner@),
        repository.1@ == repository_command(
            lowercase(name_with_owner@),
            opt_str(primary_language),
            is_fork,
            is_private,
            opt_str(default_branch),
            opt_str(created_at),
        ),
{
    let repo_key = lower(name_with_owner);
    let (owner, name) = match split_once(&repo_key, '/') {
        Some(parts) => parts,
        None => (copy(&repo_key), String::new()),
    };
    let statement = repository_upsert()
        .text(&repo_key)
        .text(&owner)
        .text(&name)
        .opt(primary_language)
        .flag(is_fork)
        .flag(is_private)
        .opt(default_branch)
        .opt(created_at);
    (repo_key, statement)
}

// ---------------------------------------------------------------- pull requests

/// Column values for one `fact_pull_requests` upsert.
pub struct PullRequestRow<'a> {
    pub pr_key: &'a str,
    pub number: i64,
    pub repo_key: &'a str,
    pub author_key: &'a str,
    pub state: &'a str,
    pub is_draft: bool,
    pub title: Option<&'a str>,
    pub body: Option<&'a str>,
    pub base_ref: Option<&'a str>,
    pub head_ref: Option<&'a str>,
    pub created_at: &'a str,
    pub updated_at: Option<&'a str>,
    pub merged_at: Option<&'a str>,
    pub closed_at: Option<&'a str>,
    pub merged_by_key: Option<&'a str>,
    pub created_date_key: &'a str,
    pub created_time_key: &'a str,
    pub updated_date_key: Option<&'a str>,
    pub updated_time_key: Option<&'a str>,
    pub merged_date_key: Option<&'a str>,
    pub comment_count: i64,
    pub review_count: i64,
    pub changed_files: i64,
    pub additions: i64,
    pub deletions: i64,
}

/// The columns of a pull request, and what becomes of each where the row is
/// stored already.
pub open spec fn pull_request_fields() -> Seq<Field> {
    seq![
        field("pr_key"@, Change::Key),
        field("number"@, Change::Keep),
        field("repo_key"@, Change::Keep),
        field("author_key"@, Change::Keep),
        field("state"@, Change::Take),
        field("is_draft"@, Change::Take),
        field("title"@, Change::Take),
        field("body"@, Change::Take),
        field("base_ref"@, Change::Take),
        field("head_ref"@, Change::Take),
        field("created_at"@, Change::Keep),
        field("updated_at"@, Change::Take),
        field("merged_at"@, Change::Take),
        field("closed_at"@, Change::Take),
        field("merged_by_key"@, Change::Take),
        field("created_date_key"@, Change::Keep),
        field("created_time_key"@, Change::Keep),
        field("updated_date_key"@, Change::Take),
        field("updated_time_key"@, Change::Take),
        field("merged_date_key"@, Change::Take),
        field("comment_count"@, Change::Take),
        field("review_count"@, Change::Take),
        field("changed_files"@, Change::Take),
        field("additions"@, Change::Take),
        field("deletions"@, Change::Take),
    ]
}

/// The text of the statement that upserts a pull request.
pub open spec fn pull_request_sql() -> Seq<char> {
    upsert_sql("fact_pull_requests"@, pull_request_fields())
}

fn pull_request_upsert() -> (statement: Statement)
    ensures
        statement@ == (Command { sql: pull_request_sql(), params: Seq::empty() }),
{
    let mut columns: Vec<Column> = Vec::new();
    columns.push(column("pr_key", Change::Key));
    columns.push(column("number", Change::Keep));
    columns.push(column("repo_key", Change::Keep));
    columns.push(column("author_key", Change::Keep));
    columns.push(column("state", Change::Take));
    columns.push(column("is_draft", Change::Take));
    columns.push(column("title", Change::Take));
    columns.push(column("body", Change::Take));
    columns.push(column("base_ref", Change::Take));
    columns.push(column("head_ref", Change::Take));
    columns.push(column("created_at", Change::Keep));
    columns.push(column("updated_at", Change::Take));
    columns.push(column("merged_at", Change::Take));
    columns.push(column("closed_at", Change::Take));
    columns.push(column("merged_by_key", Change::Take));
    columns.push(column("created_date_key", Change::Keep));
    columns.push(column("created_time_key", Change::Keep));
    columns.push(column("updated_date_key", Change::Take));
    columns.push(column("updated_time_key", Change::Take));
    columns.push(column("merged_date_key", Change::Take));
    columns.push(column("comment_count", Change::Take));
    columns.push(column("review_count", Change::Take));
    columns.push(column("changed_files", Change::Take));
    columns.push(column("additions", Change::Take));
    columns.push(column("deletions", Change::Take));
    assert(fields(columns@) =~= pull_request_fields());
    upsert("fact_pull_requests", &columns)
}

/// The parameters that say what the pull request is about.
pub open spec fn subject_cells(row: PullRequestRow<'_>) -> Seq<Cell> {
    seq![
        Cell::Text(row.pr_key@),
        Cell::Integer(row.number as int),
        Cell::Text(row.repo_key@),
        Cell::Text(row.author_key@),
        Cell::Text(row.state@),
        flag_cell(row.is_draft),
        text_cell(opt_str(row.title)),
        text_cell(opt_str(row.body)),
        text_cell(opt_str(row.base_ref)),
        text_cell(opt_str(row.head_ref)),
    ]
}

fn bind_subject(statement: Statement, row: &PullRequestRow<'_>) -> (bound: Statement)
    ensures
        bound@ == (Command {
            sql: statement@.sql,
            params: statement@.params + subject_cells(*row),
        }),
{
    let bound = statement
        .text(row.pr_key)
        .integer(row.number)
        .text(row.repo_key)
        .text(row.author_key)
        .text(row.state)
        .flag(row.is_draft)
        .opt(row.title)
        .opt(row.body)
        .opt(row.base_ref)
        .opt(row.head_ref);
    assert(bound@.params =~= statement@.params + subject_cells(*row));
    bound
}

/// The parameters that say when it happened.
pub open spec fn timeline_cells(row: PullRequestRow<'_>) -> Seq<Cell> {
    seq![
        Cell::Text(row.created_at@),
        text_cell(opt_str(row.updated_at)),
        text_cell(opt_str(row.merged_at)),
        text_cell(opt_str(row.closed_at)),
        text_cell(opt_str(row.merged_by_key)),
        Cell::Text(row.created_date_key@),
        Cell::Text(row.created_time_key@),
        text_cell(opt_str(row.updated_date_key)),
        text_cell(opt_str(row.updated_time_key)),
        text_cell(opt_str(row.merged_date_key)),
    ]
}

fn bind_timeline(statement: Statement, row: &PullRequestRow<'_>) -> (bound: Statement)
    ensures
        bound@ == (Command {
            sql: statement@.sql,
            params: statement@.params + timeline_cells(*row),
        }),
{
    let bound = statement
        .text(row.created_at)
        .opt(row.updated_at)
        .opt(row.merged_at)
        .opt(row.closed_at)
        .opt(row.merged_by_key)
        .text(row.created_date_key)
        .text(row.created_time_key)
        .opt(row.updated_date_key)
        .opt(row.updated_time_key)
        .opt(row.merged_date_key);
    assert(bound@.params =~= statement@.params + timeline_cells(*row));
    bound
}

/// The parameters that say how much it holds.
pub open spec fn volume_cells(row: PullRequestRow<'_>) -> Seq<Cell> {
    seq![
        Cell::Integer(row.comment_count as int),
        Cell::Integer(row.review_count as int),
        Cell::Integer(row.changed_files as int),
        Cell::Integer(row.additions as int),
        Cell::Integer(row.deletions as int),
    ]
}

fn bind_volume(statement: Statement, row: &PullRequestRow<'_>) -> (bound: Statement)
    ensures
        bound@ == (Command {
            sql: statement@.sql,
            params: statement@.params + volume_cells(*row),
        }),
{
    let bound = statement
        .integer(row.comment_count)
        .integer(row.review_count)
        .integer(row.changed_files)
        .integer(row.additions)
        .integer(row.deletions);
    assert(bound@.params =~= statement@.params + volume_cells(*row));
    bound
}

/// The command that upserts a pull request.
pub open spec fn pull_request_command(row: PullRequestRow<'_>) -> Command {
    Command {
        sql: pull_request_sql(),
        params: subject_cells(row) + timeline_cells(row) + volume_cells(row),
    }
}

/// Upsert the wide pull-request row.
pub fn upsert_pull_request(row: &PullRequestRow<'_>) -> (statement: Statement)
    ensures
        statement@ == pull_request_command(*row),
{
    let subject = bind_subject(pull_request_upsert(), row);
    assert(subject@.params =~= subject_cells(*row));
    bind_volume(bind_timeline(subject, row), row)
}

/// The columns of a review, and what becomes of each where the row is
/// stored already.
pub open spec fn review_fields() -> Seq<Field> {
    seq![
        field("review_key"@, Change::Key),
        field("pr_key"@, Change::Keep),
        field("reviewer_key"@, Change::Keep),
        field("state"@, Change::Take),
        field("body"@, Change::Take),
        field("submitted_at"@, Change::Take),
        field("submitted_date_key"@, Change::Take),
        field("submitted_time_key"@, Change::Take),
    ]
}

/// The text of the statement that upserts a review.
pub open spec fn review_sql() -> Seq<char> {
    upsert_sql("fact_reviews"@, review_fields())
}

fn review_upsert() -> (statement: Statement)
    ensures
        statement@ == (Command { sql: review_sql(), params: Seq::empty() }),
{
    let mut columns: Vec<Column> = Vec::new();
    columns.push(column("review_key", Change::Key));
    columns.push(column("pr_key", Change::Keep));
    columns.push(column("reviewer_key", Change::Keep));
    columns.push(column("state", Change::Take));
    columns.push(column("body", Change::Take));
    columns.push(column("submitted_at", Change::Take));
    columns.push(column("submitted_date_key", Change::Take));
    columns.push(column("submitted_time_key", Change::Take));
    assert(fields(columns@) =~= review_fields());
    upsert("fact_reviews", &columns)
}

/// The command that does so.
pub open spec fn review_command(
    review_key: Seq<char>,
    pr_key: Seq<char>,
    reviewer_key: Seq<char>,
    state: Seq<char>,
    body: Option<Seq<char>>,
    submitted_at: Seq<char>,
    submitted_date_key: Seq<char>,
    submitted_time_key: Seq<char>,
) -> Command {
    Command {
        sql: review_sql(),
        params: seq![
            Cell::Text(review_key),
            Cell::Text(pr_key),
            Cell::Text(reviewer_key),
            Cell::Text(state),
            text_cell(body),
            Cell::Text(submitted_at),
            Cell::Text(submitted_date_key),
            Cell::Text(submitted_time_key),
        ],
    }
}

/// Upsert one review.
pub fn upsert_review(
    review_key: &str,
    pr_key: &str,
    reviewer_key: &str,
    state: &str,
    body: Option<&str>,
    submitted_at: &str,
    submitted_date_key: &str,
    submitted_time_key: &str,
) -> (statement: Statement)
    ensures
        statement@ == review_command(
            review_key@,
            pr_key@,
            reviewer_key@,
            state@,
            opt_str(body),
            submitted_at@,
            submitted_date_key@,
            submitted_time_key@,
        ),
{
    review_upsert()
        .text(review_key)
        .text(pr_key)
        .text(reviewer_key)
        .text(state)
        .opt(body)
        .text(submitted_at)
        .text(submitted_date_key)
        .text(submitted_time_key)
}

/// The columns of a review comment, and what becomes of each where the row is
/// stored already.
pub open spec fn review_comment_fields() -> Seq<Field> {
    seq![
        field("comment_key"@, Change::Key),
        field("pr_key"@, Change::Keep),
        field("author_key"@, Change::Keep),
        field("in_reply_to"@, Change::Take),
        field("path"@, Change::Take),
        field("line"@, Change::Take),
        field("body"@, Change::Take),
        field("created_at"@, Change::Keep),
        field("created_date_key"@, Change::Keep),
        field("created_time_key"@, Change::Keep),
    ]
}

/// The text of the statement that upserts a review comment.
pub open spec fn review_comment_sql() -> Seq<char> {
    upsert_sql("fact_review_comments"@, review_comment_fields())
}

fn review_comment_upsert() -> (statement: Statement)
    ensures
        statement@ == (Command { sql: review_comment_sql(), params: Seq::empty() }),
{
    let mut columns: Vec<Column> = Vec::new();
    columns.push(column("comment_key", Change::Key));
    columns.push(column("pr_key", Change::Keep));
    columns.push(column("author_key", Change::Keep));
    columns.push(column("in_reply_to", Change::Take));
    columns.push(column("path", Change::Take));
    columns.push(column("line", Change::Take));
    columns.push(column("body", Change::Take));
    columns.push(column("created_at", Change::Keep));
    columns.push(column("created_date_key", Change::Keep));
    columns.push(column("created_time_key", Change::Keep));
    assert(fields(columns@) =~= review_comment_fields());
    upsert("fact_review_comments", &columns)
}

/// The command that does so.
pub open spec fn review_comment_command(
    comment_key: Seq<char>,
    pr_key: Seq<char>,
    author_key: Seq<char>,
    in_reply_to: Option<Seq<char>>,
    path: Option<Seq<char>>,
    line: Option<i64>,
    body: Option<Seq<char>>,
    created_at: Seq<char>,
    created_date_key: Seq<char>,
    created_time_key: Seq<char>,
) -> Command {
    Command {
        sql: review_comment_sql(),
        params: seq![
            Cell::Text(comment_key),
            Cell::Text(pr_key),
            Cell::Text(author_key),
            text_cell(in_reply_to),
            text_cell(path),
            int_cell(line),
            text_cell(body),
            Cell::Text(created_at),
            Cell::Text(created_date_key),
            Cell::Text(created_time_key),
        ],
    }
}

/// Upsert one review-thread comment.
pub fn upsert_review_comment(
    comment_key: &str,
    pr_key: &str,
    author_key: &str,
    in_reply_to: Option<&str>,
    path: Option<&str>,
    line: Option<i64>,
    body: Option<&str>,
    created_at: &str,
    created_date_key: &str,
    created_time_key: &str,
) -> (statement: Statement)
    ensures
        statement@ == review_comment_command(
            comment_key@,
            pr_key@,
            author_key@,
            opt_str(in_reply_to),
            opt_str(path),
            line,
            opt_str(body),
            created_at@,
            created_date_key@,
            created_time_key@,
        ),
{
    review_comment_upsert()
        .text(comment_key)
        .text(pr_key)
        .text(author_key)
        .opt(in_reply_to)
        .opt(path)
        .opt_integer(line)
        .opt(body)
        .text(created_at)
        .text(created_date_key)
        .text(created_time_key)
}

/// The columns of a conversation comment, and what becomes of each where the row is
/// stored already.
pub open spec fn issue_comment_fields() -> Seq<Field> {
    seq![
        field("comment_key"@, Change::Key),
        field("parent_type"@, Change::Keep),
        field("parent_key"@, Change::Keep),
        field("author_key"@, Change::Keep),
        field("in_reply_to"@, Change::Take),
        field("body"@, Change::Take),
        field("created_at"@, Change::Keep),
        field("created_date_key"@, Change::Keep),
        field("created_time_key"@, Change::Keep),
    ]
}

/// The text of the statement that upserts a conversation comment.
pub open spec fn issue_comment_sql() -> Seq<char> {
    upsert_sql("fact_issue_comments"@, issue_comment_fields())
}

fn issue_comment_upsert() -> (statement: Statement)
    ensures
        statement@ == (Command { sql: issue_comment_sql(), params: Seq::empty() }),
{
    let mut columns: Vec<Column> = Vec::new();
    columns.push(column("comment_key", Change::Key));
    columns.push(column("parent_type", Change::Keep));
    columns.push(column("parent_key", Change::Keep));
    columns.push(column("author_key", Change::Keep));
    columns.push(column("in_reply_to", Change::Take));
    columns.push(column("body", Change::Take));
    columns.push(column("created_at", Change::Keep));
    columns.push(column("created_date_key", Change::Keep));
    columns.push(column("created_time_key", Change::Keep));
    assert(fields(columns@) =~= issue_comment_fields());
    upsert("fact_issue_comments", &columns)
}

/// The command that does so.
pub open spec fn issue_comment_command(
    comment_key: Seq<char>,
    parent_type: Seq<char>,
    parent_key: Seq<char>,
    author_key: Seq<char>,
    in_reply_to: Option<Seq<char>>,
    body: Option<Seq<char>>,
    created_at: Seq<char>,
    created_date_key: Seq<char>,
    created_time_key: Seq<char>,
) -> Command {
    Command {
        sql: issue_comment_sql(),
        params: seq![
            Cell::Text(comment_key),
            Cell::Text(parent_type),
            Cell::Text(parent_key),
            Cell::Text(author_key),
            text_cell(in_reply_to),
            text_cell(body),
            Cell::Text(created_at),
            Cell::Text(created_date_key),
            Cell::Text(created_time_key),
        ],
    }
}

/// Upsert one comment on a pull request or an issue.
pub fn upsert_issue_comment(
    comment_key: &str,
    parent_type: &str,
    parent_key: &str,
    author_key: &str,
    in_reply_to: Option<&str>,
    body: Option<&str>,
    created_at: &str,
    created_date_key: &str,
    created_time_key: &str,
) -> (statement: Statement)
    ensures
        statement@ == issue_comment_command(
            comment_key@,
            parent_type@,
            parent_key@,
            author_key@,
            opt_str(in_reply_to),
            opt_str(body),
            created_at@,
            created_date_key@,
            created_time_key@,
        ),
{
    issue_comment_upsert()
        .text(comment_key)
        .text(parent_type)
        .text(parent_key)
        .text(author_key)
        .opt(in_reply_to)
        .opt(body)
        .text(created_at)
        .text(created_date_key)
        .text(created_time_key)
}

/// The columns of a check run, and what becomes of each where the row is
/// stored already.
pub open spec fn check_run_fields() -> Seq<Field> {
    seq![
        field("check_run_key"@, Change::Key),
        field("pr_key"@, Change::Keep),
        field("head_sha"@, Change::Keep),
        field("name"@, Change::Keep),
        field("status"@, Change::Take),
        field("conclusion"@, Change::Take),
        field("started_at"@, Change::Take),
        field("completed_at"@, Change::Take),
    ]
}

/// The text of the statement that upserts a check run.
pub open spec fn check_run_sql() -> Seq<char> {
    upsert_sql("fact_check_runs"@, check_run_fields())
}

fn check_run_upsert() -> (statement: Statement)
    ensures
        statement@ == (Command { sql: check_run_sql(), params: Seq::empty() }),
{
    let mut columns: Vec<Column> = Vec::new();
    columns.push(column("check_run_key", Change::Key));
    columns.push(column("pr_key", Change::Keep));
    columns.push(column("head_sha", Change::Keep));
    columns.push(column("name", Change::Keep));
    columns.push(column("status", Change::Take));
    columns.push(column("conclusion", Change::Take));
    columns.push(column("started_at", Change::Take));
    columns.push(column("completed_at", Change::Take));
    assert(fields(columns@) =~= check_run_fields());
    upsert("fact_check_runs", &columns)
}

/// The command that does so.
pub open spec fn check_run_command(
    check_run_key: Seq<char>,
    pr_key: Seq<char>,
    head_sha: Seq<char>,
    name: Seq<char>,
    status: Seq<char>,
    conclusion: Option<Seq<char>>,
    started_at: Option<Seq<char>>,
    completed_at: Option<Seq<char>>,
) -> Command {
    Command {
        sql: check_run_sql(),
        params: seq![
            Cell::Text(check_run_key),
            Cell::Text(pr_key),
            Cell::Text(head_sha),
            Cell::Text(name),
            Cell::Text(status),
            text_cell(conclusion),
            text_cell(started_at),
            text_cell(completed_at),
        ],
    }
}

/// Upsert one check run.
pub fn upsert_check_run(
    check_run_key: &str,
    pr_key: &str,
    head_sha: &str,
    name: &str,
    status: &str,
    conclusion: Option<&str>,
    started_at: Option<&str>,
    completed_at: Option<&str>,
) -> (statement: Statement)
    ensures
        statement@ == check_run_command(
            check_run_key@,
            pr_key@,
            head_sha@,
            name@,
            status@,
            opt_str(conclusion),
            opt_str(started_at),
            opt_str(completed_at),
        ),
{
    check_run_upsert()
        .text(check_run_key)
        .text(pr_key)
        .text(head_sha)
        .text(name)
        .text(status)
        .opt(conclusion)
        .opt(started_at)
        .opt(completed_at)
}

/// The key of a changed file.
pub open spec fn file_key(pr_key: Seq<char>, file_path: Seq<char>) -> Seq<char> {
    pr_key + ":"@ + file_path
}

/// The columns of a changed file, and what becomes of each where the row is
/// stored already.
pub open spec fn file_diff_fields() -> Seq<Field> {
    seq![
        field("file_diff_key"@, Change::Key),
        field("pr_key"@, Change::Keep),
        field("repo_key"@, Change::Keep),
        field("file_path"@, Change::Keep),
        field("previous_path"@, Change::Take),
        field("change_type"@, Change::Take),
        field("patch"@, Change::Fill),
        field("additions"@, Change::Take),
        field("deletions"@, Change::Take),
    ]
}

/// The text of the statement that upserts a changed file.
pub open spec fn file_diff_sql() -> Seq<char> {
    upsert_sql("fact_file_diffs"@, file_diff_fields())
}

fn file_diff_upsert() -> (statement: Statement)
    ensures
        statement@ == (Command { sql: file_diff_sql(), params: Seq::empty() }),
{
    let mut columns: Vec<Column> = Vec::new();
    columns.push(column("file_diff_key", Change::Key));
    columns.push(column("pr_key", Change::Keep));
    columns.push(column("repo_key", Change::Keep));
    columns.push(column("file_path", Change::Keep));
    columns.push(column("previous_path", Change::Take));
    columns.push(column("change_type", Change::Take));
    columns.push(column("patch", Change::Fill));
    columns.push(column("additions", Change::Take));
    columns.push(column("deletions", Change::Take));
    assert(fields(columns@) =~= file_diff_fields());
    upsert("fact_file_diffs", &columns)
}

/// The command that does so.
pub open spec fn file_diff_command(
    pr_key: Seq<char>,
    repo_key: Seq<char>,
    file_path: Seq<char>,
    previous_path: Option<Seq<char>>,
    change_type: Seq<char>,
    patch: Option<Seq<char>>,
    additions: int,
    deletions: int,
) -> Command {
    Command {
        sql: file_diff_sql(),
        params: seq![
            Cell::Text(file_key(pr_key, file_path)),
            Cell::Text(pr_key),
            Cell::Text(repo_key),
            Cell::Text(file_path),
            text_cell(previous_path),
            Cell::Text(change_type),
            text_cell(patch),
            Cell::Integer(additions),
            Cell::Integer(deletions),
        ],
    }
}

/// Upsert one changed file.
pub fn upsert_file_diff(
    pr_key: &str,
    repo_key: &str,
    file_path: &str,
    previous_path: Option<&str>,
    change_type: &str,
    patch: Option<&str>,
    additions: i64,
    deletions: i64,
) -> (statement: Statement)
    ensures
        statement@ == file_diff_command(
            pr_key@,
            repo_key@,
            file_path@,
            opt_str(previous_path),
            change_type@,
            opt_str(patch),
            additions as int,
            deletions as int,
        ),
{
    let file_diff_key = join3(pr_key, ":", file_path);
    file_diff_upsert()
        .text(&file_diff_key)
        .text(pr_key)
        .text(repo_key)
        .text(file_path)
        .opt(previous_path)
        .text(change_type)
        .opt(patch)
        .integer(additions)
        .integer(deletions)
}

/// The statement that sets the patch of a changed file.
pub const SET_PATCH_SQL: &'static str = "UPDATE fact_file_diffs SET patch = ?1, previous_path = COALESCE(?2, previous_path)
         WHERE file_diff_key = ?3";

/// The command that sets the patch of a changed file.
pub open spec fn set_patch_command(
    pr_key: Seq<char>,
    file_path: Seq<char>,
    previous_path: Option<Seq<char>>,
    patch: Option<Seq<char>>,
) -> Command {
    Command {
        sql: SET_PATCH_SQL@,
        params: seq![
            text_cell(patch),
            text_cell(previous_path),
            Cell::Text(file_key(pr_key, file_path)),
        ],
    }
}

/// Set the patch text for an existing file diff (REST backfill path).
pub fn set_file_diff_patch(
    pr_key: &str,
    file_path: &str,
    previous_path: Option<&str>,
    patch: Option<&str>,
) -> (statement: Statement)
    ensures
        statement@ == set_patch_command(
            pr_key@,
            file_path@,
            opt_str(previous_path),
            opt_str(patch),
        ),
{
    Statement::new(SET_PATCH_SQL)
        .opt(patch)
        .opt(previous_path)
        .text(&join3(pr_key, ":", file_path))
}

/// The statement that reads the configured bot suffix.
pub const BOT_SUFFIX_SQL: &'static str = "SELECT value FROM config WHERE key = 'bot_login_suffix'";

/// The configured bot login suffix (default `[bot]`), from the stored config
/// (`None` where it could not be read).
pub fn bot_login_suffix(stored: Option<&str>) -> (suffix: String)
    ensures
        suffix@ == (match opt_str(stored) {
            Some(suffix) => suffix,
            None => "[bot]"@,
        }),
{
    match stored {
        Some(suffix) => copy(suffix),
        None => copy("[bot]"),
    }
}

} // verus!
