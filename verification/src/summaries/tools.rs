//! The tools offered to the summary agent: a read-only query over the
//! warehouse, and the writer of a structured summary.

use vstd::prelude::*;
use crate::number::{
    decimal, law_integers_read_back, lemma_decimal_reads_back, parse_signed, push_decimal,
    signed_decimal, signed_text, signed_value,
};
use crate::sql::{int_cell, text_cell, Cell, Command, Statement};
use crate::storage::upsert::{
    always_leaves, field, fields, keeps_first, key_of, lemma_reaches_its_column, rows_after, upsert,
    upsert_sql, Change, Column, Field,
};
use crate::text::{
    begins_with, copy, is_last_at, last_index, opt_text, rsplit_once, split_at_last, starts_with,
    texts, trim, trimmed, upper, uppercase,
};

verus! {

// ---------------------------------------------------------------- queries

/// Input for the query tool.
#[derive(Debug, Clone, PartialEq, Eq)]
pub struct QueryDatabaseInput {
    /// SQL SELECT query to execute. Must be a read-only query (SELECT only).
    pub sql: String,
    /// Maximum number of rows to return. Defaults to 100.
    pub limit: usize,
}

/// The number of rows to return where no limit is given.
pub fn default_limit() -> (limit: usize)
    ensures
        limit == 100,
{
    100
}

/// The rows that a query gave.
#[derive(Debug, Clone, PartialEq, Eq)]
pub struct QueryRow {
    /// Column names
    pub columns: Vec<String>,
    /// Row values as strings
    pub values: Vec<Vec<String>>,
    /// True when the result was cut at the requested row limit
    pub truncated: bool,
}

/// One value of a row. A real number comes with its text.
#[derive(Debug, Clone, PartialEq, Eq)]
pub enum ResultCell {
    Null,
    Integer(i64),
    Real(String),
    Text(String),
    Blob,
}

/// How a value is shown to the agent.
pub open spec fn shown_cell(cell: ResultCell) -> Seq<char> {
    match cell {
        ResultCell::Null => "NULL"@,
        ResultCell::Integer(n) => signed_decimal(n as int),
        ResultCell::Real(text) => text@,
        ResultCell::Text(text) => text@,
        ResultCell::Blob => "[BLOB]"@,
    }
}

/// How a value is shown to the agent.
pub fn cell_text(cell: ResultCell) -> (text: String)
    ensures
        text@ == shown_cell(cell),
{
    match cell {
        ResultCell::Null => copy("NULL"),
        ResultCell::Integer(n) => signed_text(n),
        ResultCell::Real(text) => text,
        ResultCell::Text(text) => text,
        ResultCell::Blob => copy("[BLOB]"),
    }
}

impl QueryRow {
    /// No rows yet.
    pub fn new(columns: Vec<String>) -> (rows: QueryRow)
        ensures
            rows.columns == columns,
            rows.values@.len() == 0,
            !rows.truncated,
    {
        QueryRow { columns, values: Vec::new(), truncated: false }
    }

    /// Take the next row, or mark the result as cut where the limit is reached.
    /// Returns whether more rows are wanted.
    ///
    /// Rows are capped while they are collected, never by rewriting the SQL
    /// text.
    pub fn offer(&mut self, row: Vec<String>, limit: usize) -> (more: bool)
        ensures
            more == (old(self).values@.len() < limit),
            final(self).columns == old(self).columns,
            final(self).values@ == (if more {
                old(self).values@.push(row)
            } else {
                old(self).values@
            }),
            final(self).truncated == (old(self).truncated || !more),
    {
        if self.values.len() >= limit {
            self.truncated = true;
            return false;
        }
        self.values.push(row);
        true
    }
}

/// What a collection of rows holds after the first `n` rows of a result were
/// offered, with no row offered once the limit was reached and noticed.
pub open spec fn collected(rows: Seq<Vec<String>>, n: int, limit: int) -> (Seq<Vec<String>>, bool)
    decreases n,
{
    if n <= 0 {
        (Seq::empty(), false)
    } else {
        let (values, truncated) = collected(rows, n - 1, limit);
        if truncated {
            (values, truncated)
        } else if values.len() < limit {
            (values.push(rows[n - 1]), false)
        } else {
            (values, true)
        }
    }
}

/// Collecting keeps the first rows up to the limit, and says that the result
/// was cut exactly where there were more.
pub proof fn law_rows_are_capped(rows: Seq<Vec<String>>, n: int, limit: int)
    requires
        0 <= n <= rows.len(),
        0 <= limit,
    ensures
        collected(rows, n, limit).0 == rows.take(
            if n <= limit {
                n
            } else {
                limit
            },
        ),
        collected(rows, n, limit).1 == (n > limit),
    decreases n,
{
    if n > 0 {
        law_rows_are_capped(rows, n - 1, limit);
        if n <= limit {
            assert(rows.take(n) =~= rows.take(n - 1).push(rows[n - 1]));
        }
    } else {
        assert(rows.take(0) =~= Seq::empty());
    }
}

/// Read-only SQL query tool for exploring the warehouse.
#[derive(Debug, Clone, Copy, PartialEq, Eq)]
pub struct QueryDatabaseTool;

/// The text begins like a query: SELECT, WITH (CTE), or EXPLAIN.
pub open spec fn looks_read_only(sql: Seq<char>) -> bool {
    let shouted = uppercase(trimmed(sql));
    begins_with(shouted, "SELECT"@) || begins_with(shouted, "WITH"@) || begins_with(
        shouted,
        "EXPLAIN"@,
    )
}

impl QueryDatabaseTool {
    /// The name of the tool.
    pub fn name(&self) -> (name: &'static str)
        ensures
            name@ == "query_database"@,
    {
        "query_database"
    }

    /// What the tool does.
    pub fn description(&self) -> (description: &'static str)
        ensures
            description@ == QUERY_TOOL_DESCRIPTION@,
    {
        QUERY_TOOL_DESCRIPTION
    }

    /// Does the text begin like a query? This only gives a friendly early
    /// error: the prepared statement itself is asked as well.
    pub fn is_read_only(sql: &str) -> (yes: bool)
        ensures
            yes == looks_read_only(sql@),
    {
        let trimmed_sql = trim(sql);
        let shouted = upper(&trimmed_sql);
        starts_with(&shouted, "SELECT") || starts_with(&shouted, "WITH") || starts_with(
            &shouted,
            "EXPLAIN",
        )
    }

    /// Refuse a text that does not begin like a query.
    pub fn admit_text(sql: &str) -> (outcome: Result<(), String>)
        ensures
            match outcome {
                Ok(_) => looks_read_only(sql@),
                Err(message) => !looks_read_only(sql@) && message@
                    == "Only SELECT queries are allowed. Use write tools for modifications."@,
            },
    {
        if QueryDatabaseTool::is_read_only(sql) {
            Ok(())
        } else {
            Err(copy("Only SELECT queries are allowed. Use write tools for modifications."))
        }
    }

    /// Refuse a statement that SQLite does not classify as read-only. This is
    /// what stops mutations hiding behind an allowed prefix.
    pub fn admit_statement(readonly: bool) -> (outcome: Result<(), String>)
        ensures
            match outcome {
                Ok(_) => readonly,
                Err(message) => !readonly && message@
                    == "Query rejected: statement is not read-only."@,
            },
    {
        if readonly {
            Ok(())
        } else {
            Err(copy("Query rejected: statement is not read-only."))
        }
    }
}

/// What the query tool does.
pub const QUERY_TOOL_DESCRIPTION: &'static str = "Execute a read-only SQL query against the GitHub data warehouse. Returns up to `limit` rows (default 100). Use this to explore PR data, file diffs, reviews, comments, and check runs, and to gather context for summaries. The database uses a star schema with fact tables (fact_pull_requests, fact_file_diffs, fact_reviews, fact_review_comments, fact_issue_comments, fact_check_runs) and dimension tables (dim_entities, dim_repositories, dim_date, dim_time).";

// ---------------------------------------------------------------- summaries

/// A notable aspect of a PR.
#[derive(Debug, Clone, PartialEq, Eq)]
pub struct NotableAspect {
    /// Type of aspect (e.g., "risk", "innovation", "collaboration")
    pub aspect_type: String,
    /// Description of this aspect
    pub text: String,
}

/// Input for writing a PR summary.
#[derive(Debug, Clone, PartialEq, Eq)]
pub struct WritePrSummaryInput {
    /// The PR key being summarized (format: "{owner}/{repo}#{number}", e.g. "octocat/hello#42")
    pub pr_key: String,
    /// One-line summary for lists and quick reference
    pub headline: String,
    /// Technical description of what changed
    pub what_changed: String,
    /// Business/impact framing of why this matters
    pub why_it_matters: String,
    /// Notability score from 0-10
    pub notability_score: u8,
    /// Justification for the notability score
    pub notability_justification: String,
    /// Types of changes (e.g., ["new_feature", "bugfix", "refactor"])
    pub change_types: Vec<String>,
    /// Areas impacted (e.g., ["user_facing", "api_surface", "internal"])
    pub impact_areas: Vec<String>,
    /// Complexity signal: "trivial", "straightforward", "involved", "substantial"
    pub complexity_signal: String,
    /// Notable aspects about this work (optional)
    pub notable_aspects: Option<Vec<NotableAspect>>,
    /// Technical keywords for search (optional)
    pub technical_keywords: Option<Vec<String>>,
    /// Domain/business keywords for search (optional)
    pub domain_keywords: Option<Vec<String>>,
    /// Context tags (e.g., ["greenfield", "tech_debt_paydown"]) (optional)
    pub context_tags: Option<Vec<String>>,
    /// Runtime in milliseconds (patched by the caller after the run, not by the agent)
    pub runtime_ms: Option<i64>,
}

/// The repository and the number in a PR key.
pub open spec fn pr_key_parts(pr_key: Seq<char>) -> Option<(Seq<char>, int)> {
    match split_at_last(pr_key, '#') {
        Some((repo_key, number)) => match signed_value(number, i64::MIN as int, i64::MAX as int) {
            Some(number) => Some((repo_key, number)),
            None => None,
        },
        None => None,
    }
}

/// Split a `pr_key` of the form "{owner}/{repo}#{number}" into (repo_key, number).
pub fn parse_pr_key(pr_key: &str) -> (parts: Option<(String, i64)>)
    ensures
        match parts {
            Some((repo_key, number)) => pr_key_parts(pr_key@) == Some((repo_key@, number as int)),
            None => pr_key_parts(pr_key@) is None,
        },
{
    match rsplit_once(pr_key, '#') {
        Some((repo_key, number)) => match parse_signed(number.as_str(), i64::MIN, i64::MAX) {
            Some(number) => Some((repo_key, number)),
            None => None,
        },
        None => None,
    }
}

/// The key of a numbered PR splits into the repository and the number that it
/// was made of, whatever the repository is called.
pub proof fn law_pr_keys_read_back(repo_key: Seq<char>, number: i64)
    ensures
        pr_key_parts(repo_key + "#"@ + signed_decimal(number as int)) == Some(
            (repo_key, number as int),
        ),
{
    reveal_strlit("#");
    let shown = signed_decimal(number as int);
    let key = repo_key + "#"@ + shown;
    lemma_no_hash(number as int);
    let at = repo_key.len() as int;
    assert(key[at] == '#');
    assert forall|j: int| at < j < key.len() implies key[j] != '#' by {
        assert(key[j] == shown[j - at - 1]);
    }
    assert(is_last_at(key, '#', at));
    let other = last_index(key, '#');
    assert(is_last_at(key, '#', other));
    assert(other == at);
    assert(key.take(at) =~= repo_key);
    assert(key.skip(at + 1) =~= shown);
    law_integers_read_back(number as int, i64::MIN as int, i64::MAX as int);
}

proof fn lemma_no_hash(n: int)
    ensures
        forall|i: int| 0 <= i < signed_decimal(n).len() ==> (#[trigger] signed_decimal(n)[i]) != '#',
{
    reveal_strlit("-");
    if n >= 0 {
        lemma_decimal_reads_back(n as nat);
    } else {
        lemma_decimal_reads_back((-n) as nat);
    }
}

/// What the warehouse knows of a PR.
#[derive(Debug, Clone, PartialEq, Eq)]
pub struct PrSource {
    pub repo_key: String,
    pub number: i64,
    pub author_key: Option<String>,
    pub updated_at: Option<String>,
}

/// The statement that reads what the warehouse knows of a PR.
pub const SOURCE_SQL: &'static str = "SELECT repo_key, number, author_key, updated_at
                     FROM fact_pull_requests WHERE pr_key = ?1";

/// The query for what the warehouse knows of a PR.
pub fn find_source(pr_key: &str) -> (statement: Statement)
    ensures
        statement@ == (Command { sql: SOURCE_SQL@, params: seq![Cell::Text(pr_key@)] }),
{
    Statement::new(SOURCE_SQL).text(pr_key)
}

/// The subject of a summary: repository, number, author and the time of the
/// data that it is made of.
pub ghost struct Subject {
    pub repo_key: Seq<char>,
    pub number: int,
    pub author_key: Option<Seq<char>>,
    pub updated_at: Seq<char>,
}

/// The subject of a summary: the PR row itself, else what its key says, else
/// the key alone.
pub open spec fn subject_of(pr_key: Seq<char>, source: Option<PrSource>, now: Seq<char>) -> Subject {
    match source {
        Some(source) => Subject {
            repo_key: source.repo_key@,
            number: source.number as int,
            author_key: opt_text(source.author_key),
            updated_at: match opt_text(source.updated_at) {
                Some(updated_at) => updated_at,
                None => now,
            },
        },
        None => match pr_key_parts(pr_key) {
            Some((repo_key, number)) => Subject {
                repo_key,
                number,
                author_key: None,
                updated_at: now,
            },
            None => Subject { repo_key: pr_key, number: 0, author_key: None, updated_at: now },
        },
    }
}

/// Derive the subject of a summary, so that the caller only supplies the
/// analysis. A PR that is not in the warehouse (yet) is read off its key.
pub fn derive_source(pr_key: &str, source: Option<PrSource>, now: &str) -> (derived: PrSource)
    ensures
        derived.updated_at is Some,
        ({
            let subject = subject_of(pr_key@, source, now@);
            &&& derived.repo_key@ == subject.repo_key
            &&& derived.number == subject.number
            &&& opt_text(derived.author_key) == subject.author_key
            &&& opt_text(derived.updated_at) == Some(subject.updated_at)
        }),
{
    match source {
        Some(source) => PrSource {
            repo_key: source.repo_key,
            number: source.number,
            author_key: source.author_key,
            updated_at: match source.updated_at {
                Some(updated_at) => Some(updated_at),
                None => Some(copy(now)),
            },
        },
        None => match parse_pr_key(pr_key) {
            Some((repo_key, number)) => PrSource {
                repo_key,
                number,
                author_key: None,
                updated_at: Some(copy(now)),
            },
            None => PrSource {
                repo_key: copy(pr_key),
                number: 0,
                author_key: None,
                updated_at: Some(copy(now)),
            },
        },
    }
}

/// The JSON text that `serde_json::to_string` writes for a list of texts.
pub uninterp spec fn strings_json(items: Seq<Seq<char>>) -> Seq<char>;

/// Calls `serde_json::to_string` on a list of texts. It can fail only on a map
/// with other keys than texts or where a value's own serialization does, and
/// here is neither; the text depends on the list alone.
#[verifier::external_body]
fn serde_strings(items: &Vec<String>) -> (outcome: Result<String, String>)
    ensures
        outcome is Ok,
        outcome->Ok_0@ == strings_json(texts(items@)),
{
    serde_json::to_string(items).map_err(|error| error.to_string())
}

/// The members of a list of JSON objects with text values.
pub open spec fn object_members(items: Seq<Vec<(String, String)>>) -> Seq<
    Seq<(Seq<char>, Seq<char>)>,
> {
    Seq::new(
        items.len(),
        |i: int| Seq::new(items[i]@.len(), |j: int| (items[i]@[j].0@, items[i]@[j].1@)),
    )
}

/// The JSON text that `serde_json::to_string` writes for a list of objects with
/// the given members.
pub uninterp spec fn objects_json(items: Seq<Seq<(Seq<char>, Seq<char>)>>) -> Seq<char>;

/// Calls `serde_json::to_string` on a list of objects, each collected into a
/// `serde_json::Map` from its members. It can fail only on a map with other keys
/// than texts or where a value's own serialization does, and here is neither;
/// the text depends on the members alone.
#[verifier::external_body]
fn serde_objects(items: Vec<Vec<(String, String)>>) -> (outcome: Result<String, String>)
    ensures
        outcome is Ok,
        outcome->Ok_0@ == objects_json(object_members(items@)),
{
    let objects: Vec<serde_json::Map<String, serde_json::Value>> = items
        .into_iter()
        .map(|members| {
            members.into_iter().map(|(name, text)| (name, serde_json::Value::String(text))).collect()
        })
        .collect();
    serde_json::to_string(&objects).map_err(|error| error.to_string())
}

/// The members of an aspect, in the order of its fields.
pub open spec fn aspect_members(aspects: Seq<NotableAspect>) -> Seq<Seq<(Seq<char>, Seq<char>)>> {
    Seq::new(
        aspects.len(),
        |i: int|
            seq![
                ("aspect_type"@, aspects[i].aspect_type@),
                ("text"@, aspects[i].text@),
            ],
    )
}

fn aspect_objects(aspects: &Vec<NotableAspect>) -> (items: Vec<Vec<(String, String)>>)
    ensures
        object_members(items@) == aspect_members(aspects@),
{
    let mut items: Vec<Vec<(String, String)>> = Vec::new();
    let mut i: usize = 0;
    while i < aspects.len()
        invariant
            i <= aspects.len(),
            items@.len() == i,
            object_members(items@) =~= aspect_members(aspects@).take(i as int),
        decreases aspects.len() - i,
    {
        let ghost before = items@;
        let mut members: Vec<(String, String)> = Vec::new();
        members.push((copy("aspect_type"), copy(aspects[i].aspect_type.as_str())));
        members.push((copy("text"), copy(aspects[i].text.as_str())));
        items.push(members);
        proof {
            let made = object_members(items@);
            assert(made[i as int] =~= aspect_members(aspects@)[i as int]);
            assert(made =~= object_members(before).push(made[i as int]));
            assert(aspect_members(aspects@).take(i + 1) =~= aspect_members(aspects@).take(
                i as int,
            ).push(aspect_members(aspects@)[i as int]));
        }
        i = i + 1;
    }
    assert(aspect_members(aspects@).take(i as int) =~= aspect_members(aspects@));
    items
}

/// The lists of a summary as JSON texts.
#[derive(Debug, Clone, PartialEq, Eq)]
pub struct SummaryJson {
    pub change_types: String,
    pub impact_areas: String,
    pub notable_aspects: Option<String>,
    pub technical_keywords: Option<String>,
    pub domain_keywords: Option<String>,
    pub context_tags: Option<String>,
}

/// The JSON text of an optional list.
pub open spec fn optional_json(list: Option<Vec<String>>) -> Option<Seq<char>> {
    match list {
        Some(list) => Some(strings_json(texts(list@))),
        None => None,
    }
}

fn required_list(list: &Vec<String>) -> (json: String)
    ensures
        json@ == strings_json(texts(list@)),
{
    match serde_strings(list) {
        Ok(json) => json,
        Err(_) => String::new(),
    }
}

fn optional_list(list: &Option<Vec<String>>) -> (json: Option<String>)
    ensures
        opt_text(json) == optional_json(*list),
{
    match list {
        Some(list) => match serde_strings(list) {
            Ok(json) => Some(json),
            Err(_) => None,
        },
        None => None,
    }
}

/// The texts are the lists of a summary as JSON.
pub open spec fn is_json_of(json: SummaryJson, input: WritePrSummaryInput) -> bool {
    &&& json.change_types@ == strings_json(texts(input.change_types@))
    &&& json.impact_areas@ == strings_json(texts(input.impact_areas@))
    &&& opt_text(json.notable_aspects) == (match input.notable_aspects {
        Some(aspects) => Some(objects_json(aspect_members(aspects@))),
        None => None,
    })
    &&& opt_text(json.technical_keywords) == optional_json(input.technical_keywords)
    &&& opt_text(json.domain_keywords) == optional_json(input.domain_keywords)
    &&& opt_text(json.context_tags) == optional_json(input.context_tags)
}

/// Write the lists of a summary as JSON.
pub fn summary_json(input: &WritePrSummaryInput) -> (json: SummaryJson)
    ensures
        is_json_of(json, *input),
{
    SummaryJson {
        change_types: required_list(&input.change_types),
        impact_areas: required_list(&input.impact_areas),
        notable_aspects: match &input.notable_aspects {
            Some(aspects) => match serde_objects(aspect_objects(aspects)) {
                Ok(json) => Some(json),
                Err(_) => None,
            },
            None => None,
        },
        technical_keywords: optional_list(&input.technical_keywords),
        domain_keywords: optional_list(&input.domain_keywords),
        context_tags: optional_list(&input.context_tags),
    }
}

/// The columns of the summaries. A summary that exists is replaced, and keeps
/// its `created_at`.
pub open spec fn summary_fields() -> Seq<Field> {
    seq![
        field("pr_key"@, Change::Key),
        field("repo_key"@, Change::Take),
        field("number"@, Change::Take),
        field("author_key"@, Change::Take),
        field("headline"@, Change::Take),
        field("what_changed"@, Change::Take),
        field("why_it_matters"@, Change::Take),
        field("notability_score"@, Change::Take),
        field("notability_justification"@, Change::Take),
        field("change_types"@, Change::Take),
        field("impact_areas"@, Change::Take),
        field("complexity_signal"@, Change::Take),
        field("notable_aspects"@, Change::Take),
        field("technical_keywords"@, Change::Take),
        field("domain_keywords"@, Change::Take),
        field("context_tags"@, Change::Take),
        field("prompt_version"@, Change::Take),
        field("source_updated_at"@, Change::Take),
        field("is_stale"@, Change::Take),
        field("runtime_ms"@, Change::Take),
        field("created_at"@, Change::Keep),
        field("updated_at"@, Change::Take),
    ]
}

/// The columns of the summaries, for their upsert.
fn summary_columns() -> (columns: Vec<Column>)
    ensures
        fields(columns@) == summary_fields(),
{
    let mut columns: Vec<Column> = Vec::new();
    columns.push(Column { name: "pr_key", change: Change::Key });
    columns.push(Column { name: "repo_key", change: Change::Take });
    columns.push(Column { name: "number", change: Change::Take });
    columns.push(Column { name: "author_key", change: Change::Take });
    columns.push(Column { name: "headline", change: Change::Take });
    columns.push(Column { name: "what_changed", change: Change::Take });
    columns.push(Column { name: "why_it_matters", change: Change::Take });
    columns.push(Column { name: "notability_score", change: Change::Take });
    columns.push(Column { name: "notability_justification", change: Change::Take });
    columns.push(Column { name: "change_types", change: Change::Take });
    columns.push(Column { name: "impact_areas", change: Change::Take });
    columns.push(Column { name: "complexity_signal", change: Change::Take });
    columns.push(Column { name: "notable_aspects", change: Change::Take });
    columns.push(Column { name: "technical_keywords", change: Change::Take });
    columns.push(Column { name: "domain_keywords", change: Change::Take });
    columns.push(Column { name: "context_tags", change: Change::Take });
    columns.push(Column { name: "prompt_version", change: Change::Take });
    columns.push(Column { name: "source_updated_at", change: Change::Take });
    columns.push(Column { name: "is_stale", change: Change::Take });
    columns.push(Column { name: "runtime_ms", change: Change::Take });
    columns.push(Column { name: "created_at", change: Change::Keep });
    columns.push(Column { name: "updated_at", change: Change::Take });
    assert(fields(columns@) =~= summary_fields());
    columns
}

/// The place of `created_at` among the columns.
pub const CREATED_AT: usize = 20;

/// The parameters that say what was summarized and how it reads.
pub open spec fn prose_cells(input: WritePrSummaryInput, subject: Subject) -> Seq<Cell> {
    seq![
        Cell::Text(input.pr_key@),
        Cell::Text(subject.repo_key),
        Cell::Integer(subject.number),
        text_cell(subject.author_key),
        Cell::Text(input.headline@),
        Cell::Text(input.what_changed@),
        Cell::Text(input.why_it_matters@),
        Cell::Integer(input.notability_score as int),
        Cell::Text(input.notability_justification@),
    ]
}

/// The parameters that classify the change.
pub open spec fn class_cells(input: WritePrSummaryInput, json: SummaryJson) -> Seq<Cell> {
    seq![
        Cell::Text(json.change_types@),
        Cell::Text(json.impact_areas@),
        Cell::Text(input.complexity_signal@),
        text_cell(opt_text(json.notable_aspects)),
        text_cell(opt_text(json.technical_keywords)),
        text_cell(opt_text(json.domain_keywords)),
        text_cell(opt_text(json.context_tags)),
    ]
}

/// The parameters that say where the summary comes from.
pub open spec fn origin_cells(
    input: WritePrSummaryInput,
    subject: Subject,
    prompt_version: int,
    now: Seq<char>,
) -> Seq<Cell> {
    seq![
        Cell::Integer(prompt_version),
        Cell::Text(subject.updated_at),
        Cell::Integer(0),
        int_cell(input.runtime_ms),
        Cell::Text(now),
        Cell::Text(now),
    ]
}

fn bind_prose(statement: Statement, input: &WritePrSummaryInput, derived: &PrSource) -> (bound:
    Statement)
    ensures
        bound@ == (Command {
            sql: statement@.sql,
            params: statement@.params + seq![
                Cell::Text(input.pr_key@),
                Cell::Text(derived.repo_key@),
                Cell::Integer(derived.number as int),
                text_cell(opt_text(derived.author_key)),
                Cell::Text(input.headline@),
                Cell::Text(input.what_changed@),
                Cell::Text(input.why_it_matters@),
                Cell::Integer(input.notability_score as int),
                Cell::Text(input.notability_justification@),
            ],
        }),
{
    let bound = statement
        .text(input.pr_key.as_str())
        .text(derived.repo_key.as_str())
        .integer(derived.number)
        .opt_string(&derived.author_key)
        .text(input.headline.as_str())
        .text(input.what_changed.as_str())
        .text(input.why_it_matters.as_str())
        .integer(input.notability_score as i64)
        .text(input.notability_justification.as_str());
    assert(bound@.params =~= statement@.params + seq![
        Cell::Text(input.pr_key@),
        Cell::Text(derived.repo_key@),
        Cell::Integer(derived.number as int),
        text_cell(opt_text(derived.author_key)),
        Cell::Text(input.headline@),
        Cell::Text(input.what_changed@),
        Cell::Text(input.why_it_matters@),
        Cell::Integer(input.notability_score as int),
        Cell::Text(input.notability_justification@),
    ]);
    bound
}

fn bind_class(statement: Statement, input: &WritePrSummaryInput, json: &SummaryJson) -> (bound:
    Statement)
    ensures
        bound@ == (Command {
            sql: statement@.sql,
            params: statement@.params + class_cells(*input, *json),
        }),
{
    let bound = statement
        .text(json.change_types.as_str())
        .text(json.impact_areas.as_str())
        .text(input.complexity_signal.as_str())
        .opt_string(&json.notable_aspects)
        .opt_string(&json.technical_keywords)
        .opt_string(&json.domain_keywords)
        .opt_string(&json.context_tags);
    assert(bound@.params =~= statement@.params + class_cells(*input, *json));
    bound
}

/// Write a PR summary to the database.
#[derive(Debug, Clone, Copy, PartialEq, Eq)]
pub struct WritePrSummaryTool {
    pub prompt_version: i32,
}

/// Current prompt version for PR summaries.
pub const PROMPT_VERSION: i32 = 1;

/// What the writer does.
pub const WRITE_TOOL_DESCRIPTION: &'static str = "Save a structured summary for a pull request to the database. Call this once you have analyzed the PR and determined its notability, change types, and impact. Pass the pr_key; repo, number, author, and the source timestamp are derived from the warehouse.";

/// The row of a summary.
pub open spec fn summary_cells(
    prompt_version: i32,
    input: WritePrSummaryInput,
    subject: Subject,
    json: SummaryJson,
    now: Seq<char>,
) -> Seq<Cell> {
    prose_cells(input, subject) + class_cells(input, json) + origin_cells(
        input,
        subject,
        prompt_version as int,
        now,
    )
}

/// The command that stores a summary.
pub open spec fn save_command(
    prompt_version: i32,
    input: WritePrSummaryInput,
    source: Option<PrSource>,
    json: SummaryJson,
    now: Seq<char>,
) -> Command {
    let subject = subject_of(input.pr_key@, source, now);
    Command {
        sql: upsert_sql("pr_summaries"@, summary_fields()),
        params: summary_cells(prompt_version, input, subject, json, now),
    }
}

impl WritePrSummaryTool {
    /// A writer for a version of the prompt.
    pub fn new(prompt_version: i32) -> (tool: WritePrSummaryTool)
        ensures
            tool.prompt_version == prompt_version,
    {
        WritePrSummaryTool { prompt_version }
    }

    /// The name of the tool.
    pub fn name(&self) -> (name: &'static str)
        ensures
            name@ == "write_pr_summary"@,
    {
        "write_pr_summary"
    }

    /// What the tool does.
    pub fn description(&self) -> (description: &'static str)
        ensures
            description@ == WRITE_TOOL_DESCRIPTION@,
    {
        WRITE_TOOL_DESCRIPTION
    }

    /// The statement that stores a summary, given what the warehouse knows of
    /// the PR and the JSON texts of the lists.
    pub fn statement(
        &self,
        input: &WritePrSummaryInput,
        source: Option<PrSource>,
        json: &SummaryJson,
        now: &str,
    ) -> (statement: Statement)
        ensures
            statement@ == save_command(self.prompt_version, *input, source, *json, now@),
    {
        let derived = derive_source(input.pr_key.as_str(), source, now);
        let ghost subject = subject_of(input.pr_key@, source, now@);
        let prose = bind_prose(upsert("pr_summaries", &summary_columns()), input, &derived);
        assert(prose@.params =~= prose_cells(*input, subject));
        let class = bind_class(prose, input, json);
        let statement = class
            .integer(self.prompt_version as i64)
            .opt_string(&derived.updated_at)
            .integer(0)
            .opt_integer(input.runtime_ms)
            .text(now)
            .text(now);
        assert(statement@.params =~= class@.params + origin_cells(
            *input,
            subject,
            self.prompt_version as int,
            now@,
        ));
        statement
    }

    /// Store a summary, given what the warehouse knows of the PR.
    pub fn save(&self, input: &WritePrSummaryInput, source: Option<PrSource>, now: &str) -> (saved: (
        SummaryJson,
        Statement,
    ))
        ensures
            saved.0.change_types@ == strings_json(texts(input.change_types@)),
            saved.0.impact_areas@ == strings_json(texts(input.impact_areas@)),
            opt_text(saved.0.notable_aspects) == (match input.notable_aspects {
                Some(aspects) => Some(objects_json(aspect_members(aspects@))),
                None => None,
            }),
            opt_text(saved.0.technical_keywords) == optional_json(input.technical_keywords),
            opt_text(saved.0.domain_keywords) == optional_json(input.domain_keywords),
            opt_text(saved.0.context_tags) == optional_json(input.context_tags),
            saved.1@ == save_command(self.prompt_version, *input, source, saved.0, now@),
    {
        let json = summary_json(input);
        let statement = self.statement(input, source, &json, now);
        (json, statement)
    }

    /// What the agent is told once a summary is stored.
    pub fn receipt(input: &WritePrSummaryInput) -> (text: String)
        ensures
            text@ == "Saved summary for "@ + input.pr_key@ + " (notability: "@ + decimal(
                input.notability_score as nat,
            ) + ")"@,
    {
        let mut text = copy("Saved summary for ");
        text.append(input.pr_key.as_str());
        text.append(" (notability: ");
        push_decimal(&mut text, input.notability_score as u64);
        text.append(")");
        text
    }
}

/// Both tools that a summary needs.
pub fn pr_summary_tools() -> (tools: (QueryDatabaseTool, WritePrSummaryTool))
    ensures
        tools.1.prompt_version == PROMPT_VERSION,
{
    (QueryDatabaseTool, WritePrSummaryTool::new(PROMPT_VERSION))
}

// ---------------------------------------------------------------- laws

/// A second summary of a pull request takes the place of the first and keeps its
/// `created_at`: there is still one row for the pull request, every other column
/// of it comes from the second, and no other row changes.
pub proof fn law_a_second_summary_keeps_created_at(
    rows: Map<Seq<Cell>, Seq<Cell>>,
    prompt_version: i32,
    input: WritePrSummaryInput,
    subject: Subject,
    json: SummaryJson,
    now: Seq<char>,
    column: int,
    other: Seq<Cell>,
)
    requires
        rows.dom().contains(seq![Cell::Text(input.pr_key@)]),
        rows[seq![Cell::Text(input.pr_key@)]][0] == Cell::Text(input.pr_key@),
        0 <= column < summary_fields().len(),
    ensures
        ({
            let key = seq![Cell::Text(input.pr_key@)];
            let new = summary_cells(prompt_version, input, subject, json, now);
            let after = rows_after(summary_fields(), rows, new);
            &&& after.dom() == rows.dom()
            &&& after[key][CREATED_AT as int] == rows[key][CREATED_AT as int]
            &&& column != CREATED_AT ==> after[key][column] == new[column]
            &&& other != key && rows.dom().contains(other) ==> after[other] == rows[other]
        }),
{
    let all = summary_fields();
    let key = seq![Cell::Text(input.pr_key@)];
    let new = summary_cells(prompt_version, input, subject, json, now);
    let after = rows_after(all, rows, new);
    lemma_summary_key(new, 22);
    assert(key_of(all, new, 22) =~= key);
    assert(after.dom() =~= rows.dom());
}

/// The key of a summary is its first column alone.
proof fn lemma_summary_key(row: Seq<Cell>, n: int)
    requires
        1 <= n <= 22,
    ensures
        key_of(summary_fields(), row, n) == seq![row[0]],
    decreases n,
{
    if n > 1 {
        lemma_summary_key(row, n - 1);
    } else {
        assert(key_of(summary_fields(), row, 0) =~= Seq::empty());
        assert(key_of(summary_fields(), row, 1) =~= seq![row[0]]);
    }
}

/// A list as its JSON text, or null.
pub open spec fn list_cell(list: Option<Vec<String>>) -> Cell {
    match list {
        Some(list) => Cell::Text(strings_json(texts(list@))),
        None => Cell::Null,
    }
}

/// Aspects as their JSON text, or null.
pub open spec fn aspects_cell(aspects: Option<Vec<NotableAspect>>) -> Cell {
    match aspects {
        Some(aspects) => Cell::Text(objects_json(aspect_members(aspects@))),
        None => Cell::Null,
    }
}

/// The command stores a summary: each column holds the field that it is named
/// after.
#[verifier::opaque]
pub open spec fn stores_summary(
    command: Command,
    prompt_version: i32,
    input: WritePrSummaryInput,
    source: Option<PrSource>,
    now: Seq<char>,
) -> bool {
    &&& keeps_first(command, "pr_summaries"@, summary_fields(), "pr_key"@, Cell::Text(input.pr_key@))
    &&& always_leaves(command, "pr_summaries"@, summary_fields(), "repo_key"@, Cell::Text(subject_of(input.pr_key@, source, now).repo_key))
    &&& always_leaves(command, "pr_summaries"@, summary_fields(), "number"@, Cell::Integer(subject_of(input.pr_key@, source, now).number))
    &&& always_leaves(command, "pr_summaries"@, summary_fields(), "author_key"@, text_cell(subject_of(input.pr_key@, source, now).author_key))
    &&& always_leaves(command, "pr_summaries"@, summary_fields(), "headline"@, Cell::Text(input.headline@))
    &&& always_leaves(command, "pr_summaries"@, summary_fields(), "what_changed"@, Cell::Text(input.what_changed@))
    &&& always_leaves(command, "pr_summaries"@, summary_fields(), "why_it_matters"@, Cell::Text(input.why_it_matters@))
    &&& always_leaves(command, "pr_summaries"@, summary_fields(), "notability_score"@, Cell::Integer(input.notability_score as int))
    &&& always_leaves(command, "pr_summaries"@, summary_fields(), "notability_justification"@, Cell::Text(input.notability_justification@))
    &&& always_leaves(command, "pr_summaries"@, summary_fields(), "change_types"@, Cell::Text(strings_json(texts(input.change_types@))))
    &&& always_leaves(command, "pr_summaries"@, summary_fields(), "impact_areas"@, Cell::Text(strings_json(texts(input.impact_areas@))))
    &&& always_leaves(command, "pr_summaries"@, summary_fields(), "complexity_signal"@, Cell::Text(input.complexity_signal@))
    &&& always_leaves(command, "pr_summaries"@, summary_fields(), "notable_aspects"@, aspects_cell(input.notable_aspects))
    &&& always_leaves(command, "pr_summaries"@, summary_fields(), "technical_keywords"@, list_cell(input.technical_keywords))
    &&& always_leaves(command, "pr_summaries"@, summary_fields(), "domain_keywords"@, list_cell(input.domain_keywords))
    &&& always_leaves(command, "pr_summaries"@, summary_fields(), "context_tags"@, list_cell(input.context_tags))
    &&& always_leaves(command, "pr_summaries"@, summary_fields(), "prompt_version"@, Cell::Integer(prompt_version as int))
    &&& always_leaves(command, "pr_summaries"@, summary_fields(), "source_updated_at"@, Cell::Text(subject_of(input.pr_key@, source, now).updated_at))
    &&& always_leaves(command, "pr_summaries"@, summary_fields(), "is_stale"@, Cell::Integer(0))
    &&& always_leaves(command, "pr_summaries"@, summary_fields(), "runtime_ms"@, int_cell(input.runtime_ms))
    &&& keeps_first(command, "pr_summaries"@, summary_fields(), "created_at"@, Cell::Text(now))
    &&& always_leaves(command, "pr_summaries"@, summary_fields(), "updated_at"@, Cell::Text(now))
}

/// Every field of a summary is stored in the column that it is named after, its
/// lists as their JSON texts, with the repository, the number and the author of
/// the pull request that it is about.
pub proof fn law_a_summary_reaches_its_columns(
    prompt_version: i32,
    input: WritePrSummaryInput,
    source: Option<PrSource>,
    json: SummaryJson,
    now: Seq<char>,
)
    requires
        is_json_of(json, input),
    ensures
        stores_summary(
            save_command(prompt_version, input, source, json, now),
            prompt_version,
            input,
            source,
            now,
        ),
{
    reveal(stores_summary);
    let command = save_command(prompt_version, input, source, json, now);
    lemma_reaches_its_column(command, "pr_summaries"@, summary_fields(), 0);
    assert(summary_fields()[0].name == "pr_key"@);
    assert(command.params[0] == Cell::Text(input.pr_key@));
    lemma_reaches_its_column(command, "pr_summaries"@, summary_fields(), 1);
    assert(summary_fields()[1].name == "repo_key"@);
    assert(command.params[1] == Cell::Text(subject_of(input.pr_key@, source, now).repo_key));
    lemma_reaches_its_column(command, "pr_summaries"@, summary_fields(), 2);
    assert(summary_fields()[2].name == "number"@);
    assert(command.params[2] == Cell::Integer(subject_of(input.pr_key@, source, now).number));
    lemma_reaches_its_column(command, "pr_summaries"@, summary_fields(), 3);
    assert(summary_fields()[3].name == "author_key"@);
    assert(command.params[3] == text_cell(subject_of(input.pr_key@, source, now).author_key));
    lemma_reaches_its_column(command, "pr_summaries"@, summary_fields(), 4);
    assert(summary_fields()[4].name == "headline"@);
    assert(command.params[4] == Cell::Text(input.headline@));
    lemma_reaches_its_column(command, "pr_summaries"@, summary_fields(), 5);
    assert(summary_fields()[5].name == "what_changed"@);
    assert(command.params[5] == Cell::Text(input.what_changed@));
    lemma_reaches_its_column(command, "pr_summaries"@, summary_fields(), 6);
    assert(summary_fields()[6].name == "why_it_matters"@);
    assert(command.params[6] == Cell::Text(input.why_it_matters@));
    lemma_reaches_its_column(command, "pr_summaries"@, summary_fields(), 7);
    assert(summary_fields()[7].name == "notability_score"@);
    assert(command.params[7] == Cell::Integer(input.notability_score as int));
    lemma_reaches_its_column(command, "pr_summaries"@, summary_fields(), 8);
    assert(summary_fields()[8].name == "notability_justification"@);
    assert(command.params[8] == Cell::Text(input.notability_justification@));
    lemma_reaches_its_column(command, "pr_summaries"@, summary_fields(), 9);
    assert(summary_fields()[9].name == "change_types"@);
    assert(command.params[9] == Cell::Text(strings_json(texts(input.change_types@))));
    lemma_reaches_its_column(command, "pr_summaries"@, summary_fields(), 10);
    assert(summary_fields()[10].name == "impact_areas"@);
    assert(command.params[10] == Cell::Text(strings_json(texts(input.impact_areas@))));
    lemma_reaches_its_column(command, "pr_summaries"@, summary_fields(), 11);
    assert(summary_fields()[11].name == "complexity_signal"@);
    assert(command.params[11] == Cell::Text(input.complexity_signal@));
    lemma_reaches_its_column(command, "pr_summaries"@, summary_fields(), 12);
    assert(summary_fields()[12].name == "notable_aspects"@);
    assert(command.params[12] == aspects_cell(input.notable_aspects));
    lemma_reaches_its_column(command, "pr_summaries"@, summary_fields(), 13);
    assert(summary_fields()[13].name == "technical_keywords"@);
    assert(command.params[13] == list_cell(input.technical_keywords));
    lemma_reaches_its_column(command, "pr_summaries"@, summary_fields(), 14);
    assert(summary_fields()[14].name == "domain_keywords"@);
    assert(command.params[14] == list_cell(input.domain_keywords));
    lemma_reaches_its_column(command, "pr_summaries"@, summary_fields(), 15);
    assert(summary_fields()[15].name == "context_tags"@);
    assert(command.params[15] == list_cell(input.context_tags));
    lemma_reaches_its_column(command, "pr_summaries"@, summary_fields(), 16);
    assert(summary_fields()[16].name == "prompt_version"@);
    assert(command.params[16] == Cell::Integer(prompt_version as int));
    lemma_reaches_its_column(command, "pr_summaries"@, summary_fields(), 17);
    assert(summary_fields()[17].name == "source_updated_at"@);
    assert(command.params[17] == Cell::Text(subject_of(input.pr_key@, source, now).updated_at));
    lemma_reaches_its_column(command, "pr_summaries"@, summary_fields(), 18);
    assert(summary_fields()[18].name == "is_stale"@);
    assert(command.params[18] == Cell::Integer(0));
    lemma_reaches_its_column(command, "pr_summaries"@, summary_fields(), 19);
    assert(summary_fields()[19].name == "runtime_ms"@);
    assert(command.params[19] == int_cell(input.runtime_ms));
    lemma_reaches_its_column(command, "pr_summaries"@, summary_fields(), 20);
    assert(summary_fields()[20].name == "created_at"@);
    assert(command.params[20] == Cell::Text(now));
    lemma_reaches_its_column(command, "pr_summaries"@, summary_fields(), 21);
    assert(summary_fields()[21].name == "updated_at"@);
    assert(command.params[21] == Cell::Text(now));
}

/// What a summary says of its pull request is what the warehouse holds of it;
/// where it holds nothing, what the key says.
pub proof fn law_a_summary_is_of_its_pull_request(
    repo_key: Seq<char>,
    number: i64,
    source: PrSource,
    now: Seq<char>,
    pr_key: Seq<char>,
)
    ensures
        subject_of(pr_key, Some(source), now).repo_key == source.repo_key@,
        subject_of(pr_key, Some(source), now).number == source.number,
        subject_of(pr_key, Some(source), now).author_key == opt_text(source.author_key),
        source.updated_at is Some ==> Some(subject_of(pr_key, Some(source), now).updated_at)
            == opt_text(source.updated_at),
        ({
            let subject = subject_of(repo_key + "#"@ + signed_decimal(number as int), None, now);
            subject.repo_key == repo_key && subject.number == number
        }),
{
    law_pr_keys_read_back(repo_key, number);
}

} // verus!
