//! Upserts for issues, labels, milestones, and assignee bridges.

use vstd::prelude::*;
use crate::fetch::issues::{IssueData, LabelData, MilestoneData};
use crate::sql::{commands, push_statement, single, text_cell, Cell, Command, Statement};
use crate::storage::upsert::{column, field, fields, upsert, upsert_sql, Change, Column, Field};
use crate::text::{lower, lowercase, opt_str, opt_text, texts};

verus! {

/// The columns of a label, and what becomes of each where the row is
/// stored already.
pub open spec fn label_fields() -> Seq<Field> {
    seq![
        field("id"@, Change::Key),
        field("repo_key"@, Change::Keep),
        field("name"@, Change::Take),
        field("color"@, Change::Take),
        field("description"@, Change::Take),
    ]
}

/// The text of the statement that upserts a label.
pub open spec fn label_sql() -> Seq<char> {
    upsert_sql("labels"@, label_fields())
}

fn label_upsert() -> (statement: Statement)
    ensures
        statement@ == (Command { sql: label_sql(), params: Seq::empty() }),
{
    let mut columns: Vec<Column> = Vec::new();
    columns.push(column("id", Change::Key));
    columns.push(column("repo_key", Change::Keep));
    columns.push(column("name", Change::Take));
    columns.push(column("color", Change::Take));
    columns.push(column("description", Change::Take));
    assert(fields(columns@) =~= label_fields());
    upsert("labels", &columns)
}

/// The command that upserts a label.
pub open spec fn label_command(repo_key: Seq<char>, label: LabelData) -> Command {
    Command {
        sql: label_sql(),
        params: seq![
            Cell::Text(label.id@),
            Cell::Text(repo_key),
            Cell::Text(label.name@),
            Cell::Text(label.color@),
            Cell::Text(label.description@),
        ],
    }
}

/// Upsert one label.
pub fn upsert_label(repo_key: &str, label: &LabelData) -> (statement: Statement)
    ensures
        statement@ == label_command(repo_key@, *label),
{
    label_upsert()
        .text(label.id.as_str())
        .text(repo_key)
        .text(label.name.as_str())
        .text(label.color.as_str())
        .text(label.description.as_str())
}

/// The columns of a milestone, and what becomes of each where the row is
/// stored already.
pub open spec fn milestone_fields() -> Seq<Field> {
    seq![
        field("id"@, Change::Key),
        field("repo_key"@, Change::Keep),
        field("number"@, Change::Keep),
        field("title"@, Change::Take),
        field("description"@, Change::Take),
        field("state"@, Change::Take),
        field("due_on"@, Change::Take),
        field("created_at"@, Change::Keep),
    ]
}

/// The text of the statement that upserts a milestone.
pub open spec fn milestone_sql() -> Seq<char> {
    upsert_sql("milestones"@, milestone_fields())
}

fn milestone_upsert() -> (statement: Statement)
    ensures
        statement@ == (Command { sql: milestone_sql(), params: Seq::empty() }),
{
    let mut columns: Vec<Column> = Vec::new();
    columns.push(column("id", Change::Key));
    columns.push(column("repo_key", Change::Keep));
    columns.push(column("number", Change::Keep));
    columns.push(column("title", Change::Take));
    columns.push(column("description", Change::Take));
    columns.push(column("state", Change::Take));
    columns.push(column("due_on", Change::Take));
    columns.push(column("created_at", Change::Keep));
    assert(fields(columns@) =~= milestone_fields());
    upsert("milestones", &columns)
}

/// The command that upserts a milestone.
pub open spec fn milestone_command(repo_key: Seq<char>, milestone: MilestoneData) -> Command {
    Command {
        sql: milestone_sql(),
        params: seq![
            Cell::Text(milestone.id@),
            Cell::Text(repo_key),
            Cell::Integer(milestone.number as int),
            Cell::Text(milestone.title@),
            text_cell(opt_text(milestone.description)),
            Cell::Text(lowercase(milestone.state@)),
            text_cell(opt_text(milestone.due_on)),
            text_cell(opt_text(milestone.created_at)),
        ],
    }
}

/// Upsert one milestone.
pub fn upsert_milestone(repo_key: &str, milestone: &MilestoneData) -> (statement: Statement)
    ensures
        statement@ == milestone_command(repo_key@, *milestone),
{
    milestone_upsert()
        .text(milestone.id.as_str())
        .text(repo_key)
        .integer(milestone.number)
        .text(milestone.title.as_str())
        .opt_string(&milestone.description)
        .text(&lower(milestone.state.as_str()))
        .opt_string(&milestone.due_on)
        .opt_string(&milestone.created_at)
}

/// The columns of an issue, and what becomes of each where the row is
/// stored already.
pub open spec fn issue_fields() -> Seq<Field> {
    seq![
        field("id"@, Change::Key),
        field("repo_key"@, Change::Keep),
        field("number"@, Change::Keep),
        field("title"@, Change::Take),
        field("body"@, Change::Take),
        field("state"@, Change::Take),
        field("state_reason"@, Change::Take),
        field("author_key"@, Change::Take),
        field("milestone_id"@, Change::Take),
        field("comment_count"@, Change::Take),
        field("created_at"@, Change::Keep),
        field("updated_at"@, Change::Take),
        field("closed_at"@, Change::Take),
        field("created_date_key"@, Change::Take),
    ]
}

/// The text of the statement that upserts an issue.
pub open spec fn issue_sql() -> Seq<char> {
    upsert_sql("issues"@, issue_fields())
}

fn issue_upsert() -> (statement: Statement)
    ensures
        statement@ == (Command { sql: issue_sql(), params: Seq::empty() }),
{
    let mut columns: Vec<Column> = Vec::new();
    columns.push(column("id", Change::Key));
    columns.push(column("repo_key", Change::Keep));
    columns.push(column("number", Change::Keep));
    columns.push(column("title", Change::Take));
    columns.push(column("body", Change::Take));
    columns.push(column("state", Change::Take));
    columns.push(column("state_reason", Change::Take));
    columns.push(column("author_key", Change::Take));
    columns.push(column("milestone_id", Change::Take));
    columns.push(column("comment_count", Change::Take));
    columns.push(column("created_at", Change::Keep));
    columns.push(column("updated_at", Change::Take));
    columns.push(column("closed_at", Change::Take));
    columns.push(column("created_date_key", Change::Take));
    assert(fields(columns@) =~= issue_fields());
    upsert("issues", &columns)
}

/// The id of the milestone of an issue.
pub open spec fn milestone_id(milestone: Option<MilestoneData>) -> Option<Seq<char>> {
    match milestone {
        Some(milestone) => Some(milestone.id@),
        None => None,
    }
}

/// The command that upserts an issue.
pub open spec fn issue_command(
    repo_key: Seq<char>,
    issue: IssueData,
    author_key: Option<Seq<char>>,
    created_date_key: Option<Seq<char>>,
) -> Command {
    Command {
        sql: issue_sql(),
        params: seq![
            Cell::Text(issue.id@),
            Cell::Text(repo_key),
            Cell::Integer(issue.number as int),
            Cell::Text(issue.title@),
            text_cell(opt_text(issue.body)),
            Cell::Text(issue.state@),
            text_cell(opt_text(issue.state_reason)),
            text_cell(author_key),
            text_cell(milestone_id(issue.milestone)),
            Cell::Integer(issue.comments@.len() as i64 as int),
            Cell::Text(issue.created_at@),
            Cell::Text(issue.updated_at@),
            text_cell(opt_text(issue.closed_at)),
            text_cell(created_date_key),
        ],
    }
}

/// Upsert the wide issue row. Label/assignee bridges are replaced separately.
pub fn upsert_issue(
    repo_key: &str,
    issue: &IssueData,
    author_key: Option<&str>,
    created_date_key: Option<&str>,
) -> (statement: Statement)
    ensures
        statement@ == issue_command(
            repo_key@,
            *issue,
            opt_str(author_key),
            opt_str(created_date_key),
        ),
{
    let milestone = match &issue.milestone {
        Some(milestone) => Some(milestone.id.as_str()),
        None => None,
    };
    issue_upsert()
        .text(issue.id.as_str())
        .text(repo_key)
        .integer(issue.number)
        .text(issue.title.as_str())
        .opt_string(&issue.body)
        .text(issue.state.as_str())
        .opt_string(&issue.state_reason)
        .opt(author_key)
        .opt(milestone)
        .integer(issue.comments.len() as i64)
        .text(issue.created_at.as_str())
        .text(issue.updated_at.as_str())
        .opt_string(&issue.closed_at)
        .opt(created_date_key)
}

/// The commands that replace a set of links of an issue: all of them go, then
/// each wanted one is added.
pub open spec fn replace_links(
    delete_sql: Seq<char>,
    insert_sql: Seq<char>,
    issue_id: Seq<char>,
    targets: Seq<Seq<char>>,
    n: int,
) -> Seq<Command>
    decreases n,
{
    if n <= 0 {
        seq![Command { sql: delete_sql, params: seq![Cell::Text(issue_id)] }]
    } else {
        replace_links(delete_sql, insert_sql, issue_id, targets, n - 1).push(
            Command {
                sql: insert_sql,
                params: seq![Cell::Text(issue_id), Cell::Text(targets[n - 1])],
            },
        )
    }
}

fn replace_all(delete_sql: &str, insert_sql: &str, issue_id: &str, targets: &Vec<String>) -> (
    statements: Vec<Statement>)
    ensures
        commands(statements@) == replace_links(
            delete_sql@,
            insert_sql@,
            issue_id@,
            texts(targets@),
            targets@.len() as int,
        ),
{
    let first = Statement::new(delete_sql).text(issue_id);
    assert(first@.params =~= seq![Cell::Text(issue_id@)]);
    let mut statements = single(first);
    let mut i: usize = 0;
    while i < targets.len()
        invariant
            i <= targets.len(),
            commands(statements@) == replace_links(
                delete_sql@,
                insert_sql@,
                issue_id@,
                texts(targets@),
                i as int,
            ),
        decreases targets.len() - i,
    {
        let link = Statement::new(insert_sql).text(issue_id).text(targets[i].as_str());
        assert(link@.params =~= seq![Cell::Text(issue_id@), Cell::Text(texts(targets@)[i as int])]);
        push_statement(&mut statements, link);
        i = i + 1;
    }
    statements
}

/// The statement that removes the labels of an issue.
pub const DELETE_LABELS_SQL: &'static str = "DELETE FROM issue_labels WHERE issue_id = ?1";

/// The statement that adds a label to an issue.
pub const INSERT_LABEL_SQL: &'static str = "INSERT OR IGNORE INTO issue_labels (issue_id, label_id) VALUES (?1, ?2)";

/// Replace the label set for an issue.
pub fn replace_issue_labels(issue_id: &str, label_ids: &Vec<String>) -> (statements: Vec<Statement>)
    ensures
        commands(statements@) == replace_links(
            DELETE_LABELS_SQL@,
            INSERT_LABEL_SQL@,
            issue_id@,
            texts(label_ids@),
            label_ids@.len() as int,
        ),
{
    replace_all(DELETE_LABELS_SQL, INSERT_LABEL_SQL, issue_id, label_ids)
}

/// The statement that removes the assignees of an issue.
pub const DELETE_ASSIGNEES_SQL: &'static str = "DELETE FROM issue_assignees WHERE issue_id = ?1";

/// The statement that adds an assignee to an issue.
pub const INSERT_ASSIGNEE_SQL: &'static str = "INSERT OR IGNORE INTO issue_assignees (issue_id, entity_key) VALUES (?1, ?2)";

/// Replace the assignee set for an issue.
pub fn replace_issue_assignees(issue_id: &str, entity_keys: &Vec<String>) -> (statements: Vec<
    Statement,
>)
    ensures
        commands(statements@) == replace_links(
            DELETE_ASSIGNEES_SQL@,
            INSERT_ASSIGNEE_SQL@,
            issue_id@,
            texts(entity_keys@),
            entity_keys@.len() as int,
        ),
{
    replace_all(DELETE_ASSIGNEES_SQL, INSERT_ASSIGNEE_SQL, issue_id, entity_keys)
}

} // verus!
