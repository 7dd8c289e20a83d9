//! The command line: what a command asks for, and the lines that answer it.

use vstd::prelude::*;
use crate::calendar::Date;
use crate::error::{is_config, is_invalid, Error};
use crate::metrics::types::{
    measure_text, ranked_text, EntityMetric, GroupMetrics, MetricWithDelta, RepoAggregations,
    RepoMetrics, UserAggregations, UserMetrics,
};
use crate::number::{decimal, push_decimal, push_signed, signed_decimal};
use crate::period::{has_range, lacks_week, parsed_period, span_end, span_key, span_start, Period};
use crate::query::{
    asks_for_state, display_identity, keeps_to, law_a_selection_keeps_to_its_names,
    law_a_state_is_asked_for_by_its_name, opt_lowercase, parse_state, selected, shown_identity,
    state_called, state_name, within_span, Filter, Lookups, Names, PullRequestSummary, QueryBuilder,
    Selection,
};
use crate::search::{covers, HitKind, SearchHit, SearchOptions, SearchScope};
use crate::sql::{Cell, Command, Statement};
use crate::storage::monitor_repository::MonitoredSource;
use crate::storage::sync_state_repository::{date_of, parse_date};
use crate::storage::time_dimension::CONFIG_SQL;
use crate::sync::SyncSummary;
use crate::text::{
    as_slice, copy, copy_opt, ends_with, finishes_with, join2, join3, join4, join5, lower,
    lowercase, opt_str, opt_text, push_text, replace_char, replaced, same, texts,
};

verus! {

/// A text, or another one where there is none.
pub open spec fn text_or_else(text: Option<Seq<char>>, other: Seq<char>) -> Seq<char> {
    match text {
        Some(text) => text,
        None => other,
    }
}

fn or_else<'a>(text: &'a Option<String>, other: &'a str) -> (shown: &'a str)
    ensures
        shown@ == text_or_else(opt_text(*text), other@),
{
    match text {
        Some(text) => text.as_str(),
        None => other,
    }
}

// ---------------------------------------------------------------- version

/// The version that the program reports: that of the package, and the short
/// hash of the commit it was built from, where the build knows it.
pub fn version_text(version: &str, commit: Option<&str>) -> (text: String)
    ensures
        text@ == version@ + " ("@ + (match commit {
            Some(hash) => hash@,
            None => "unknown"@,
        }) + ")"@,
{
    match commit {
        Some(hash) => join4(version, " (", hash, ")"),
        None => join4(version, " (", "unknown", ")"),
    }
}

// ---------------------------------------------------------------- database

/// Default database directory name under the user's home directory.
pub const DEFAULT_DIRECTORY: &'static str = ".githubdw";

/// Default database file name.
pub const DEFAULT_FILE_NAME: &'static str = "githubdw.db";

/// A directory up to and including the slash that ends it.
pub open spec fn with_slash(directory: Seq<char>) -> Seq<char> {
    if finishes_with(directory, "/"@) {
        directory
    } else {
        directory + "/"@
    }
}

/// The default database path: `~/.githubdw/githubdw.db`.
pub fn default_database_path(home: Option<&str>) -> (outcome: Result<String, Error>)
    ensures
        match home {
            Some(home) => outcome is Ok && outcome->Ok_0@ == with_slash(home@) + DEFAULT_DIRECTORY@
                + "/"@ + DEFAULT_FILE_NAME@,
            None => outcome is Err && is_config(
                outcome->Err_0,
                "could not determine home directory"@,
            ),
        },
{
    match home {
        Some(home) => {
            let base = if ends_with(home, "/") {
                copy(home)
            } else {
                join2(home, "/")
            };
            Ok(join4(&base, DEFAULT_DIRECTORY, "/", DEFAULT_FILE_NAME))
        },
        None => Err(Error::Config(copy("could not determine home directory"))),
    }
}

// ---------------------------------------------------------------- config

/// The command that reads a configuration value.
pub open spec fn get_command(key: Seq<char>) -> Command {
    Command { sql: CONFIG_SQL@, params: seq![Cell::Text(key)] }
}

/// The query for a configuration value.
pub fn config_get(key: &str) -> (statement: Statement)
    ensures
        statement@ == get_command(key@),
{
    Statement::new(CONFIG_SQL).text(key)
}

/// A configuration value that was looked up.
pub fn config_value(key: &str, value: Option<String>) -> (outcome: Result<String, Error>)
    ensures
        match value {
            Some(value) => outcome is Ok && outcome->Ok_0 == value,
            None => outcome is Err && (outcome->Err_0 matches Error::NotFound(detail) && detail@
                == "config key '"@ + key@ + "'"@),
        },
{
    match value {
        Some(value) => Ok(value),
        None => Err(Error::NotFound(join3("config key '", key, "'"))),
    }
}

/// The statement that writes a configuration value.
pub const CONFIG_SET_SQL: &'static str = "INSERT INTO config (key, value) VALUES (?1, ?2)
                         ON CONFLICT (key) DO UPDATE SET value = excluded.value";

/// The command that writes a configuration value.
pub open spec fn set_command(key: Seq<char>, value: Seq<char>) -> Command {
    Command { sql: CONFIG_SET_SQL@, params: seq![Cell::Text(key), Cell::Text(value)] }
}

/// Write a configuration value.
pub fn config_set(key: &str, value: &str) -> (statement: Statement)
    ensures
        statement@ == set_command(key@, value@),
{
    Statement::new(CONFIG_SET_SQL).text(key).text(value)
}

/// The statement that lists all configuration values.
pub const CONFIG_LIST_SQL: &'static str = "SELECT key, value FROM config ORDER BY key";

/// The line of a configuration value.
pub fn setting_line(key: &str, value: &str) -> (line: String)
    ensures
        line@ == key@ + " = "@ + value@,
{
    join3(key, " = ", value)
}

// ---------------------------------------------------------------- sync

/// The line of a repository sync.
pub open spec fn sync_report(repository: Seq<char>, summary: SyncSummary) -> Seq<char> {
    if summary.up_to_date && summary.issues_synced == 0 {
        repository + ": already up to date"@
    } else {
        repository + ": synced "@ + signed_decimal(summary.pull_requests_synced as int)
            + " pull requests, "@ + signed_decimal(summary.issues_synced as int) + " issues ("@
            + signed_decimal(summary.pages_fetched as int) + " pages, "@ + decimal(
            summary.failed@.len(),
        ) + " failed)"@
    }
}

/// Report a repository sync.
pub fn repository_report(repository: &str, summary: &SyncSummary) -> (line: String)
    ensures
        line@ == sync_report(repository@, *summary),
{
    if summary.up_to_date && summary.issues_synced == 0 {
        return join2(repository, ": already up to date");
    }
    let mut line = join2(repository, ": synced ");
    push_signed(&mut line, summary.pull_requests_synced);
    line.append(" pull requests, ");
    push_signed(&mut line, summary.issues_synced);
    line.append(" issues (");
    push_signed(&mut line, summary.pages_fetched);
    line.append(" pages, ");
    push_decimal(&mut line, summary.failed.len() as u64);
    line.append(" failed)");
    line
}

/// Report one source of a sync of everything.
pub fn source_report(identifier: &str, summary: &SyncSummary) -> (line: String)
    ensures
        line@ == identifier@ + ": "@ + signed_decimal(summary.pull_requests_synced as int)
            + " PRs, "@ + signed_decimal(summary.issues_synced as int) + " issues"@,
{
    let mut line = join2(identifier, ": ");
    push_signed(&mut line, summary.pull_requests_synced);
    line.append(" PRs, ");
    push_signed(&mut line, summary.issues_synced);
    line.append(" issues");
    line
}

/// The line of an item that failed.
pub open spec fn failed_text(item: (String, String)) -> Seq<char> {
    "failed "@ + item.0@ + ": "@ + item.1@
}

/// The lines of the items that failed, one for each.
pub fn failure_lines(summary: &SyncSummary) -> (lines: Vec<String>)
    ensures
        texts(lines@) == summary.failed@.map_values(|item: (String, String)| failed_text(item)),
{
    let mut lines: Vec<String> = Vec::new();
    let mut i: usize = 0;
    while i < summary.failed.len()
        invariant
            i <= summary.failed.len(),
            texts(lines@) =~= summary.failed@.map_values(
                |item: (String, String)| failed_text(item),
            ).take(i as int),
        decreases summary.failed.len() - i,
    {
        let line = join4(
            "failed ",
            summary.failed[i].0.as_str(),
            ": ",
            summary.failed[i].1.as_str(),
        );
        push_text(&mut lines, line);
        i = i + 1;
    }
    lines
}

/// The statement that lists the running syncs.
pub const LOCKS_SQL: &'static str = "SELECT entity_key, started_at, current_item, current_item_id,
                                synced, skipped, failed
                         FROM sync_locks ORDER BY started_at";

/// The statement that lists the recent jobs.
pub const JOBS_SQL: &'static str = "SELECT entity_key, status, started_at, completed_at, synced
                             FROM sync_jobs ORDER BY started_at DESC LIMIT 5";

/// One live lock row.
#[derive(Debug, Clone, PartialEq, Eq)]
pub struct LockRow {
    pub entity: String,
    pub started: String,
    pub current: i64,
    pub current_id: Option<String>,
    pub synced: i64,
    pub skipped: i64,
    pub failed: i64,
}

/// One recent job row.
#[derive(Debug, Clone, PartialEq, Eq)]
pub struct JobRow {
    pub entity: String,
    pub status: String,
    pub started: String,
    pub completed: Option<String>,
    pub synced: i64,
}

/// The line of a running sync.
pub open spec fn lock_text(row: LockRow) -> Seq<char> {
    row.entity@ + ": item "@ + signed_decimal(row.current as int) + " ("@ + text_or_else(
        opt_text(row.current_id),
        "-"@,
    ) + ") since "@ + row.started@ + " — "@ + signed_decimal(row.synced as int) + " synced, "@
        + signed_decimal(row.skipped as int) + " skipped, "@ + signed_decimal(row.failed as int)
        + " failed"@
}

fn lock_line(row: &LockRow) -> (line: String)
    ensures
        line@ == lock_text(*row),
{
    let mut line = join2(row.entity.as_str(), ": item ");
    push_signed(&mut line, row.current);
    line.append(" (");
    line.append(or_else(&row.current_id, "-"));
    line.append(") since ");
    line.append(row.started.as_str());
    line.append(" — ");
    push_signed(&mut line, row.synced);
    line.append(" synced, ");
    push_signed(&mut line, row.skipped);
    line.append(" skipped, ");
    push_signed(&mut line, row.failed);
    line.append(" failed");
    line
}

/// The line of a recent job.
pub open spec fn job_text(row: JobRow) -> Seq<char> {
    row.entity@ + ": "@ + row.status@ + " (started "@ + row.started@ + ", finished "@
        + text_or_else(opt_text(row.completed), "-"@) + ", "@ + signed_decimal(row.synced as int)
        + " synced)"@
}

fn job_line(row: &JobRow) -> (line: String)
    ensures
        line@ == job_text(*row),
{
    let mut line = join4(row.entity.as_str(), ": ", row.status.as_str(), " (started ");
    line.append(row.started.as_str());
    line.append(", finished ");
    line.append(or_else(&row.completed, "-"));
    line.append(", ");
    push_signed(&mut line, row.synced);
    line.append(" synced)");
    line
}

/// The lines of a watch: the running syncs, or the recent jobs where none is
/// running.
pub open spec fn watch_texts(locks: Seq<LockRow>, jobs: Seq<JobRow>) -> Seq<Seq<char>> {
    if locks.len() == 0 {
        seq!["no sync in progress"@] + jobs.map_values(|row: JobRow| job_text(row))
    } else {
        locks.map_values(|row: LockRow| lock_text(row))
    }
}

/// The lines of a watch.
pub fn watch_lines(locks: &Vec<LockRow>, jobs: &Vec<JobRow>) -> (lines: Vec<String>)
    ensures
        texts(lines@) == watch_texts(locks@, jobs@),
{
    let mut lines: Vec<String> = Vec::new();
    let mut i: usize = 0;
    if locks.len() == 0 {
        push_text(&mut lines, copy("no sync in progress"));
        while i < jobs.len()
            invariant
                i <= jobs.len(),
                texts(lines@) =~= seq!["no sync in progress"@] + jobs@.map_values(
                    |row: JobRow| job_text(row),
                ).take(i as int),
            decreases jobs.len() - i,
        {
            push_text(&mut lines, job_line(&jobs[i]));
            i = i + 1;
        }
        assert(texts(lines@) =~= watch_texts(locks@, jobs@));
        return lines;
    }
    while i < locks.len()
        invariant
            i <= locks.len(),
            texts(lines@) =~= locks@.map_values(|row: LockRow| lock_text(row)).take(i as int),
        decreases locks.len() - i,
    {
        push_text(&mut lines, lock_line(&locks[i]));
        i = i + 1;
    }
    assert(texts(lines@) =~= watch_texts(locks@, jobs@));
    lines
}

// ---------------------------------------------------------------- monitors

/// The line of an added source.
pub fn added_line(source_type: &str, identifier: &str) -> (line: String)
    ensures
        line@ == "monitoring "@ + source_type@ + " "@ + lowercase(identifier@),
{
    join4("monitoring ", source_type, " ", &lower(identifier))
}

/// The line of a monitored source.
pub open spec fn source_text(source: MonitoredSource) -> Seq<char> {
    source.source_type@ + "\t"@ + source.identifier@ + "\t"@ + (if source.sync_enabled {
        "enabled"@
    } else {
        "disabled"@
    }) + "\tlast sync: "@ + text_or_else(opt_text(source.last_sync_at), "never"@)
}

fn source_line(source: &MonitoredSource) -> (line: String)
    ensures
        line@ == source_text(*source),
{
    let state = if source.sync_enabled {
        "enabled"
    } else {
        "disabled"
    };
    let mut line = join5(
        source.source_type.as_str(),
        "\t",
        source.identifier.as_str(),
        "\t",
        state,
    );
    line.append("\tlast sync: ");
    line.append(or_else(&source.last_sync_at, "never"));
    line
}

/// The lines of the monitored sources.
pub open spec fn source_texts(sources: Seq<MonitoredSource>) -> Seq<Seq<char>> {
    if sources.len() == 0 {
        seq!["nothing monitored yet"@]
    } else {
        sources.map_values(|source: MonitoredSource| source_text(source))
    }
}

/// The lines of the monitored sources.
pub fn source_lines(sources: &Vec<MonitoredSource>) -> (lines: Vec<String>)
    ensures
        texts(lines@) == source_texts(sources@),
{
    let mut lines: Vec<String> = Vec::new();
    if sources.len() == 0 {
        push_text(&mut lines, copy("nothing monitored yet"));
        assert(texts(lines@) =~= source_texts(sources@));
        return lines;
    }
    let mut i: usize = 0;
    while i < sources.len()
        invariant
            i <= sources.len(),
            texts(lines@) =~= sources@.map_values(
                |source: MonitoredSource| source_text(source),
            ).take(i as int),
        decreases sources.len() - i,
    {
        push_text(&mut lines, source_line(&sources[i]));
        i = i + 1;
    }
    assert(texts(lines@) =~= source_texts(sources@));
    lines
}

/// A source that was not monitored cannot be removed.
pub fn removal_line(removed: usize, source: &str) -> (outcome: Result<String, Error>)
    ensures
        if removed == 0 {
            outcome is Err && (outcome->Err_0 matches Error::NotFound(detail) && detail@
                == "monitored source '"@ + source@ + "'"@)
        } else {
            outcome is Ok && outcome->Ok_0@ == "removed "@ + source@
        },
{
    if removed == 0 {
        Err(Error::NotFound(join3("monitored source '", source, "'")))
    } else {
        Ok(join2("removed ", source))
    }
}

// ---------------------------------------------------------------- queries

/// The arguments of the query command.
#[derive(Debug, Clone, PartialEq, Eq)]
pub struct QueryArguments {
    pub author: Option<String>,
    pub reviewer: Option<String>,
    pub repo: Option<String>,
    pub org: Option<String>,
    pub group: Option<String>,
    pub label: Option<String>,
    pub state: Option<String>,
    pub merged: bool,
    pub period: Option<String>,
    pub since: Option<String>,
    pub until: Option<String>,
    pub limit: Option<u32>,
    pub offset: Option<u32>,
    pub output: String,
}

/// How the answer to a query is written.
#[derive(Debug, Clone, Copy, PartialEq, Eq, Structural)]
pub enum OutputFormat {
    Count,
    CountByAuthor,
    CountByRepo,
    CountByState,
    CountByPeriod,
    Json,
    Csv,
    Table,
}

/// The format with a name.
pub open spec fn format_called(word: Seq<char>) -> Option<OutputFormat> {
    if word == "count"@ {
        Some(OutputFormat::Count)
    } else if word == "count-by-author"@ {
        Some(OutputFormat::CountByAuthor)
    } else if word == "count-by-repo"@ {
        Some(OutputFormat::CountByRepo)
    } else if word == "count-by-state"@ {
        Some(OutputFormat::CountByState)
    } else if word == "count-by-period"@ {
        Some(OutputFormat::CountByPeriod)
    } else if word == "json"@ {
        Some(OutputFormat::Json)
    } else if word == "csv"@ {
        Some(OutputFormat::Csv)
    } else if word == "table"@ {
        Some(OutputFormat::Table)
    } else {
        None
    }
}

fn parse_format(word: &str) -> (format: Option<OutputFormat>)
    ensures
        format == format_called(word@),
{
    if same(word, "count") {
        Some(OutputFormat::Count)
    } else if same(word, "count-by-author") {
        Some(OutputFormat::CountByAuthor)
    } else if same(word, "count-by-repo") {
        Some(OutputFormat::CountByRepo)
    } else if same(word, "count-by-state") {
        Some(OutputFormat::CountByState)
    } else if same(word, "count-by-period") {
        Some(OutputFormat::CountByPeriod)
    } else if same(word, "json") {
        Some(OutputFormat::Json)
    } else if same(word, "csv") {
        Some(OutputFormat::Csv)
    } else if same(word, "table") {
        Some(OutputFormat::Table)
    } else {
        None
    }
}

/// The outcome of reading a query command.
#[derive(Debug, PartialEq, Eq)]
pub enum QueryCommand {
    /// Run the query and write the answer in the format.
    Run(QueryBuilder, OutputFormat),
    /// The period begins before the first day of the calendar.
    OutOfCalendar,
    /// The command is refused.
    Refused(Error),
}

/// The model of the outcome.
pub ghost enum Commanded {
    Run(Filter, OutputFormat),
    OutOfCalendar,
    /// An invalid argument, with its message.
    Refused(Seq<char>),
}

/// The outcome is the given one.
pub open spec fn command_is(command: QueryCommand, wanted: Commanded) -> bool {
    match wanted {
        Commanded::Run(filter, format) => command matches QueryCommand::Run(query, chosen)
            && query@ == filter && chosen == format,
        Commanded::OutOfCalendar => command is OutOfCalendar,
        Commanded::Refused(message) => command matches QueryCommand::Refused(error) && is_invalid(
            error,
            message,
        ),
    }
}

/// The names in the arguments of a query.
pub open spec fn names_in(arguments: QueryArguments) -> Names {
    Names {
        author: opt_text(arguments.author),
        reviewer: opt_text(arguments.reviewer),
        repo: opt_text(arguments.repo),
        org: opt_text(arguments.org),
        label: opt_text(arguments.label),
    }
}

/// The last step of reading a query command: the rows and the format.
pub open spec fn commanded_format(filter: Filter, arguments: QueryArguments) -> Commanded {
    let paged = Filter {
        limit: match arguments.limit {
            Some(limit) => Some(limit),
            None => filter.limit,
        },
        offset: match arguments.offset {
            Some(offset) => Some(offset),
            None => filter.offset,
        },
        ..filter
    };
    match format_called(arguments.output@) {
        Some(format) => Commanded::Run(paged, format),
        None => Commanded::Refused("unknown output format '"@ + arguments.output@ + "'"@),
    }
}

/// The step that reads the last day.
pub open spec fn commanded_until(filter: Filter, arguments: QueryArguments) -> Commanded {
    match opt_text(arguments.until) {
        None => commanded_format(filter, arguments),
        Some(text) => match date_of(text) {
            Ok(day) => commanded_format(Filter { until: Some(day), ..filter }, arguments),
            Err(message) => Commanded::Refused(message),
        },
    }
}

/// The step that reads the first day.
pub open spec fn commanded_since(filter: Filter, arguments: QueryArguments) -> Commanded {
    match opt_text(arguments.since) {
        None => commanded_until(filter, arguments),
        Some(text) => match date_of(text) {
            Ok(day) => commanded_until(Filter { since: Some(day), ..filter }, arguments),
            Err(message) => Commanded::Refused(message),
        },
    }
}

/// The step that reads the period.
pub open spec fn commanded_period(filter: Filter, arguments: QueryArguments, reference: int) -> Commanded {
    match opt_text(arguments.period) {
        None => commanded_since(filter, arguments),
        Some(text) => if lacks_week(text, reference) {
            Commanded::OutOfCalendar
        } else {
            match parsed_period(text, reference) {
                Ok(span) => if span is Rolling && !has_range(span) {
                    Commanded::OutOfCalendar
                } else {
                    commanded_since(within_span(filter, span), arguments)
                },
                Err(message) => Commanded::Refused(message),
            }
        },
    }
}

/// What a query command asks for. The first argument that cannot be read
/// refuses it.
pub open spec fn commanded(arguments: QueryArguments, lookups: Lookups, reference: int) -> Commanded {
    let chosen = selected(names_in(arguments), lookups);
    let filter = if arguments.merged {
        Filter { states: chosen.states.push("MERGED"@), ..chosen }
    } else {
        chosen
    };
    match opt_text(arguments.state) {
        None => commanded_period(filter, arguments, reference),
        Some(text) => match state_called(lowercase(text)) {
            Some(state) => commanded_period(
                Filter { states: filter.states.push(state_name(state)), ..filter },
                arguments,
                reference,
            ),
            None => Commanded::Refused("unknown state '"@ + lowercase(text) + "'"@),
        },
    }
}

/// The days, the rows and the format of a query command.
fn finish_query(query: QueryBuilder, arguments: &QueryArguments) -> (command: QueryCommand)
    ensures
        command_is(command, commanded_since(query@, *arguments)),
{
    let mut query = query;
    if let Some(text) = &arguments.since {
        match parse_date(text.as_str()) {
            Ok(date) => {
                query = query.since(date);
            },
            Err(error) => {
                return QueryCommand::Refused(error);
            },
        }
    }
    if let Some(text) = &arguments.until {
        match parse_date(text.as_str()) {
            Ok(date) => {
                query = query.until(date);
            },
            Err(error) => {
                return QueryCommand::Refused(error);
            },
        }
    }
    if let Some(limit) = arguments.limit {
        query = query.limit(limit);
    }
    if let Some(offset) = arguments.offset {
        query = query.offset(offset);
    }
    match parse_format(arguments.output.as_str()) {
        Some(format) => QueryCommand::Run(query, format),
        None => QueryCommand::Refused(
            Error::InvalidArgument(
                join3("unknown output format '", arguments.output.as_str(), "'"),
            ),
        ),
    }
}

/// Read a query command, given what the warehouse knows of its names and the
/// date that relative periods are resolved against.
pub fn query_command(arguments: &QueryArguments, lookups: &Lookups, reference: Date) -> (command:
    QueryCommand)
    ensures
        command_is(command, commanded(*arguments, *lookups, reference@)),
{
    let selection = Selection {
        author: copy_opt(as_slice(&arguments.author)),
        reviewer: copy_opt(as_slice(&arguments.reviewer)),
        repo: copy_opt(as_slice(&arguments.repo)),
        org: copy_opt(as_slice(&arguments.org)),
        label: copy_opt(as_slice(&arguments.label)),
    };
    let mut query = QueryBuilder::select(&selection, lookups);
    assert(query@ == selected(names_in(*arguments), *lookups));
    if arguments.merged {
        query = query.merged();
    }
    if let Some(text) = &arguments.state {
        match parse_state(text.as_str()) {
            Ok(state) => {
                query = query.state(state);
            },
            Err(word) => {
                return QueryCommand::Refused(
                    Error::InvalidArgument(join3("unknown state '", &word, "'")),
                );
            },
        }
    }
    if let Some(text) = &arguments.period {
        let period = match Period::parse_in_calendar(text.as_str(), reference) {
            Some(Ok(period)) => period,
            Some(Err(error)) => {
                return QueryCommand::Refused(error);
            },
            None => {
                return QueryCommand::OutOfCalendar;
            },
        };
        if let Period::Rolling(_, _) = period {
            if !period.has_dates() {
                return QueryCommand::OutOfCalendar;
            }
        }
        query = query.within(period);
    }
    finish_query(query, arguments)
}

/// The number of rows that a table shows.
pub const TABLE_ROWS: usize = 25;

/// The line of a pull request in a table.
pub open spec fn row_text(row: PullRequestSummary) -> Seq<char> {
    row.pr_key@ + "\t"@ + row.state@ + "\t"@ + shown_identity(row.author@, row.author_type@)
        + "\t"@ + row.created_at@ + "\t"@ + text_or_else(opt_text(row.title), ""@)
}

fn row_line(row: &PullRequestSummary) -> (line: String)
    ensures
        line@ == row_text(*row),
{
    let author = display_identity(row.author.as_str(), row.author_type.as_str());
    let mut line = join5(row.pr_key.as_str(), "\t", row.state.as_str(), "\t", &author);
    line.append("\t");
    line.append(row.created_at.as_str());
    line.append("\t");
    line.append(or_else(&row.title, ""));
    line
}

/// The lines of a table: the first rows, and how many more there are.
pub open spec fn table_texts(rows: Seq<PullRequestSummary>) -> Seq<Seq<char>> {
    if rows.len() > TABLE_ROWS {
        rows.take(TABLE_ROWS as int).map_values(|row: PullRequestSummary| row_text(row)).push(
            "… and "@ + decimal((rows.len() - TABLE_ROWS) as nat) + " more"@,
        )
    } else {
        rows.map_values(|row: PullRequestSummary| row_text(row))
    }
}

/// The lines of a table.
pub fn table_lines(rows: &Vec<PullRequestSummary>) -> (lines: Vec<String>)
    ensures
        texts(lines@) == table_texts(rows@),
{
    let shown: usize = if rows.len() > TABLE_ROWS {
        TABLE_ROWS
    } else {
        rows.len()
    };
    let mut lines: Vec<String> = Vec::new();
    let mut i: usize = 0;
    while i < shown
        invariant
            i <= shown <= rows.len(),
            texts(lines@) =~= rows@.take(i as int).map_values(
                |row: PullRequestSummary| row_text(row),
            ),
        decreases shown - i,
    {
        push_text(&mut lines, row_line(&rows[i]));
        i = i + 1;
    }
    if rows.len() > TABLE_ROWS {
        let mut line = copy("… and ");
        push_decimal(&mut line, (rows.len() - TABLE_ROWS) as u64);
        line.append(" more");
        push_text(&mut lines, line);
    } else {
        assert(rows@.take(shown as int) =~= rows@);
    }
    assert(texts(lines@) =~= table_texts(rows@));
    lines
}

/// The line of a count.
pub open spec fn count_text(row: (String, u64)) -> Seq<char> {
    row.0@ + "\t"@ + decimal(row.1 as nat)
}

/// The lines of a breakdown.
pub fn grouped_lines(rows: &Vec<(String, u64)>) -> (lines: Vec<String>)
    ensures
        texts(lines@) == rows@.map_values(|row: (String, u64)| count_text(row)),
{
    let mut lines: Vec<String> = Vec::new();
    let mut i: usize = 0;
    while i < rows.len()
        invariant
            i <= rows.len(),
            texts(lines@) =~= rows@.map_values(|row: (String, u64)| count_text(row)).take(i as int),
        decreases rows.len() - i,
    {
        let mut line = join2(rows[i].0.as_str(), "\t");
        push_decimal(&mut line, rows[i].1);
        push_text(&mut lines, line);
        i = i + 1;
    }
    lines
}

// ---------------------------------------------------------------- metrics

/// The line of a measure, given the text of its percentage.
pub open spec fn labeled_measure(
    label: Seq<char>,
    metric: MetricWithDelta,
    percent: Option<String>,
) -> Seq<char> {
    label + measure_text(metric, opt_text(percent))
}

fn push_measure(
    lines: &mut Vec<String>,
    label: &str,
    metric: &MetricWithDelta,
    percent: &Option<String>,
)
    ensures
        texts(final(lines)@) == texts(old(lines)@).push(labeled_measure(label@, *metric, *percent)),
{
    let shown = metric.render(as_slice(percent));
    push_text(lines, join2(label, &shown));
}

/// The lines of a leaderboard: a title, then its ranks; nothing where it is
/// empty.
pub open spec fn leaderboard_texts(title: Seq<char>, rows: Seq<EntityMetric>) -> Seq<Seq<char>> {
    if rows.len() == 0 {
        Seq::empty()
    } else {
        seq!["  "@ + title + ":"@] + rows.map_values(
            |row: EntityMetric| "    "@ + ranked_text(row),
        )
    }
}

fn push_leaderboard(lines: &mut Vec<String>, title: &str, rows: &Vec<EntityMetric>)
    ensures
        texts(final(lines)@) == texts(old(lines)@) + leaderboard_texts(title@, rows@),
{
    let ghost before = texts(lines@);
    if rows.len() == 0 {
        assert(before + Seq::<Seq<char>>::empty() =~= before);
        return ;
    }
    push_text(lines, join3("  ", title, ":"));
    let ghost head = texts(lines@);
    let mut i: usize = 0;
    while i < rows.len()
        invariant
            i <= rows.len(),
            texts(lines@) =~= head + rows@.map_values(
                |row: EntityMetric| "    "@ + ranked_text(row),
            ).take(i as int),
        decreases rows.len() - i,
    {
        push_text(lines, join2("    ", &rows[i].render()));
        i = i + 1;
    }
    assert(texts(lines@) =~= before + leaderboard_texts(title@, rows@));
}

/// The measures of a user report.
pub open spec fn user_measure_texts(metrics: UserMetrics, percents: Seq<Option<String>>) -> Seq<
    Seq<char>,
> {
    seq![
        labeled_measure("  PRs opened:       "@, metrics.prs_opened, percents[0]),
        labeled_measure("  PRs merged:       "@, metrics.prs_merged, percents[1]),
        labeled_measure("  Reviews given:    "@, metrics.reviews_given, percents[2]),
        labeled_measure("  Reviews received: "@, metrics.reviews_received, percents[3]),
        labeled_measure("  Comments given:   "@, metrics.comments_given, percents[4]),
        labeled_measure("  Lines added:      "@, metrics.lines_added, percents[5]),
        labeled_measure("  Lines removed:    "@, metrics.lines_removed, percents[6]),
    ]
}

/// The lines of a user report.
pub open spec fn user_report_texts(
    metrics: UserMetrics,
    aggregations: UserAggregations,
    percents: Seq<Option<String>>,
) -> Seq<Seq<char>> {
    seq![
        "User "@ + shown_identity(metrics.login@, metrics.entity_type@) + " — "@
            + metrics.period_key@ + " (vs "@ + metrics.previous_period_key@ + ")"@,
    ] + user_measure_texts(metrics, percents) + leaderboard_texts(
        "Top repos"@,
        aggregations.top_repos@,
    ) + leaderboard_texts("Top by reviews given"@, aggregations.top_reviewers@) + leaderboard_texts(
        "Top reviewed authors"@,
        aggregations.top_reviewed_authors@,
    )
}

fn push_period(line: &mut String, period_key: &str, previous_period_key: &str)
    ensures
        final(line)@ == old(line)@ + " — "@ + period_key@ + " (vs "@ + previous_period_key@ + ")"@,
{
    line.append(" — ");
    line.append(period_key);
    line.append(" (vs ");
    line.append(previous_period_key);
    line.append(")");
}

/// Report a user, given the texts of the percentages in the order of the
/// measures.
pub fn user_report(
    metrics: &UserMetrics,
    aggregations: &UserAggregations,
    percents: &Vec<Option<String>>,
) -> (lines: Vec<String>)
    requires
        percents@.len() == 7,
    ensures
        texts(lines@) == user_report_texts(*metrics, *aggregations, percents@),
{
    let mut lines: Vec<String> = Vec::new();
    let mut head = join2("User ", &metrics.display_login());
    push_period(&mut head, metrics.period_key.as_str(), metrics.previous_period_key.as_str());
    push_text(&mut lines, head);
    let ghost title = texts(lines@);
    push_measure(&mut lines, "  PRs opened:       ", &metrics.prs_opened, &percents[0]);
    push_measure(&mut lines, "  PRs merged:       ", &metrics.prs_merged, &percents[1]);
    push_measure(&mut lines, "  Reviews given:    ", &metrics.reviews_given, &percents[2]);
    push_measure(&mut lines, "  Reviews received: ", &metrics.reviews_received, &percents[3]);
    push_measure(&mut lines, "  Comments given:   ", &metrics.comments_given, &percents[4]);
    push_measure(&mut lines, "  Lines added:      ", &metrics.lines_added, &percents[5]);
    push_measure(&mut lines, "  Lines removed:    ", &metrics.lines_removed, &percents[6]);
    assert(texts(lines@) =~= title + user_measure_texts(*metrics, percents@));
    assert(title =~= seq![head@]);
    push_leaderboard(&mut lines, "Top repos", &aggregations.top_repos);
    push_leaderboard(&mut lines, "Top by reviews given", &aggregations.top_reviewers);
    push_leaderboard(&mut lines, "Top reviewed authors", &aggregations.top_reviewed_authors);
    lines
}

/// The measures of a repository report.
pub open spec fn repo_measure_texts(metrics: RepoMetrics, percents: Seq<Option<String>>) -> Seq<
    Seq<char>,
> {
    seq![
        labeled_measure("  PRs opened:  "@, metrics.prs_opened, percents[0]),
        labeled_measure("  PRs merged:  "@, metrics.prs_merged, percents[1]),
        labeled_measure("  Reviews:     "@, metrics.total_reviews, percents[2]),
        labeled_measure("  Comments:    "@, metrics.total_comments, percents[3]),
    ]
}

/// The line of the failure rate, where there is one.
pub open spec fn rate_texts(rate: Option<Seq<char>>) -> Seq<Seq<char>> {
    match rate {
        Some(rate) => seq!["  Check failure rate: "@ + rate + "%"@],
        None => Seq::empty(),
    }
}

/// The lines of a repository report.
pub open spec fn repo_report_texts(
    metrics: RepoMetrics,
    aggregations: RepoAggregations,
    percents: Seq<Option<String>>,
    rate: Option<Seq<char>>,
) -> Seq<Seq<char>> {
    seq![
        "Repo "@ + metrics.repository@ + " — "@ + metrics.period_key@ + " (vs "@
            + metrics.previous_period_key@ + ")"@,
    ] + repo_measure_texts(metrics, percents) + rate_texts(rate) + leaderboard_texts(
        "Top contributors"@,
        aggregations.top_contributors@,
    ) + leaderboard_texts("Top mergers"@, aggregations.top_mergers@) + leaderboard_texts(
        "Top by reviews given"@,
        aggregations.top_reviewers@,
    ) + leaderboard_texts("Top commenters"@, aggregations.top_commenters@)
}

/// Report a repository, given the texts of the percentages in the order of the
/// measures and the text of the check failure rate.
pub fn repo_report(
    metrics: &RepoMetrics,
    aggregations: &RepoAggregations,
    percents: &Vec<Option<String>>,
    rate: Option<&str>,
) -> (lines: Vec<String>)
    requires
        percents@.len() == 4,
    ensures
        texts(lines@) == repo_report_texts(*metrics, *aggregations, percents@, opt_str(rate)),
{
    let mut lines: Vec<String> = Vec::new();
    let mut head = join2("Repo ", metrics.repository.as_str());
    push_period(&mut head, metrics.period_key.as_str(), metrics.previous_period_key.as_str());
    push_text(&mut lines, head);
    let ghost title = texts(lines@);
    push_measure(&mut lines, "  PRs opened:  ", &metrics.prs_opened, &percents[0]);
    push_measure(&mut lines, "  PRs merged:  ", &metrics.prs_merged, &percents[1]);
    push_measure(&mut lines, "  Reviews:     ", &metrics.total_reviews, &percents[2]);
    push_measure(&mut lines, "  Comments:    ", &metrics.total_comments, &percents[3]);
    assert(texts(lines@) =~= title + repo_measure_texts(*metrics, percents@));
    assert(title =~= seq![head@]);
    let ghost measured = texts(lines@);
    if let Some(rate) = rate {
        push_text(&mut lines, join3("  Check failure rate: ", rate, "%"));
    }
    assert(texts(lines@) =~= measured + rate_texts(opt_str(rate)));
    push_leaderboard(&mut lines, "Top contributors", &aggregations.top_contributors);
    push_leaderboard(&mut lines, "Top mergers", &aggregations.top_mergers);
    push_leaderboard(&mut lines, "Top by reviews given", &aggregations.top_reviewers);
    push_leaderboard(&mut lines, "Top commenters", &aggregations.top_commenters);
    lines
}

/// The line of a measure that only some groups have.
pub open spec fn optional_measure(
    label: Seq<char>,
    metric: Option<MetricWithDelta>,
    percent: Option<String>,
) -> Seq<Seq<char>> {
    match metric {
        Some(metric) => seq![labeled_measure(label, metric, percent)],
        None => Seq::empty(),
    }
}

fn push_optional_measure(
    lines: &mut Vec<String>,
    label: &str,
    metric: &Option<MetricWithDelta>,
    percent: &Option<String>,
)
    ensures
        texts(final(lines)@) == texts(old(lines)@) + optional_measure(label@, *metric, *percent),
{
    let ghost before = texts(lines@);
    if let Some(metric) = metric {
        push_measure(lines, label, metric, percent);
    }
    assert(texts(lines@) =~= before + optional_measure(label@, *metric, *percent));
}

/// The lines of a group report.
pub open spec fn group_report_texts(metrics: GroupMetrics, percents: Seq<Option<String>>) -> Seq<
    Seq<char>,
> {
    seq![
        "Group "@ + metrics.group_name@ + " ("@ + metrics.kind@ + " group, "@ + decimal(
            metrics.member_count as nat,
        ) + " members)"@ + " — "@ + metrics.period_key@ + " (vs "@ + metrics.previous_period_key@
            + ")"@,
        labeled_measure("  PRs opened: "@, metrics.prs_opened, percents[0]),
        labeled_measure("  PRs merged: "@, metrics.prs_merged, percents[1]),
    ] + optional_measure(
        "  Reviews given (to non-members): "@,
        metrics.reviews_given,
        percents[2],
    ) + optional_measure("  Reviews: "@, metrics.total_reviews, percents[3]) + optional_measure(
        "  Comments: "@,
        metrics.total_comments,
        percents[4],
    )
}

/// Report a group, given the texts of the percentages in the order of the
/// measures.
pub fn group_report(metrics: &GroupMetrics, percents: &Vec<Option<String>>) -> (lines: Vec<String>)
    requires
        percents@.len() == 5,
    ensures
        texts(lines@) == group_report_texts(*metrics, percents@),
{
    let mut lines: Vec<String> = Vec::new();
    let mut head = join5(
        "Group ",
        metrics.group_name.as_str(),
        " (",
        metrics.kind.as_str(),
        " group, ",
    );
    push_decimal(&mut head, metrics.member_count);
    head.append(" members)");
    push_period(&mut head, metrics.period_key.as_str(), metrics.previous_period_key.as_str());
    push_text(&mut lines, head);
    push_measure(&mut lines, "  PRs opened: ", &metrics.prs_opened, &percents[0]);
    push_measure(&mut lines, "  PRs merged: ", &metrics.prs_merged, &percents[1]);
    assert(texts(lines@) =~= seq![
        head@,
        labeled_measure("  PRs opened: "@, metrics.prs_opened, percents@[0]),
        labeled_measure("  PRs merged: "@, metrics.prs_merged, percents@[1]),
    ]);
    push_optional_measure(
        &mut lines,
        "  Reviews given (to non-members): ",
        &metrics.reviews_given,
        &percents[2],
    );
    push_optional_measure(&mut lines, "  Reviews: ", &metrics.total_reviews, &percents[3]);
    push_optional_measure(&mut lines, "  Comments: ", &metrics.total_comments, &percents[4]);
    lines
}

// ---------------------------------------------------------------- groups

/// What was done to a group.
#[derive(Debug, Clone, Copy, PartialEq, Eq, Structural)]
pub enum GroupChange {
    Created,
    Deleted,
    Added(u64),
    Removed(u64),
    Replaced(u64),
}

/// The line of a change to a group.
pub open spec fn change_text(change: GroupChange, name: Seq<char>) -> Seq<char> {
    match change {
        GroupChange::Created => "created group "@ + name,
        GroupChange::Deleted => "deleted group "@ + name,
        GroupChange::Added(count) => "added "@ + decimal(count as nat) + " member(s) to "@ + name,
        GroupChange::Removed(count) => "removed "@ + decimal(count as nat) + " member(s) from "@
            + name,
        GroupChange::Replaced(count) => "set "@ + name + " to "@ + decimal(count as nat)
            + " member(s)"@,
    }
}

/// The line of a change to a group.
pub fn change_line(change: GroupChange, name: &str) -> (line: String)
    ensures
        line@ == change_text(change, name@),
{
    match change {
        GroupChange::Created => join2("created group ", name),
        GroupChange::Deleted => join2("deleted group ", name),
        GroupChange::Added(count) => {
            let mut line = copy("added ");
            push_decimal(&mut line, count);
            line.append(" member(s) to ");
            line.append(name);
            line
        },
        GroupChange::Removed(count) => {
            let mut line = copy("removed ");
            push_decimal(&mut line, count);
            line.append(" member(s) from ");
            line.append(name);
            line
        },
        GroupChange::Replaced(count) => {
            let mut line = join3("set ", name, " to ");
            push_decimal(&mut line, count);
            line.append(" member(s)");
            line
        },
    }
}

/// The line of a group in a list.
pub fn group_line(name: &str, description: &Option<String>, count: i64) -> (line: String)
    ensures
        line@ == name@ + "\t"@ + signed_decimal(count as int) + " members\t"@ + text_or_else(
            opt_text(*description),
            ""@,
        ),
{
    let mut line = join2(name, "\t");
    push_signed(&mut line, count);
    line.append(" members\t");
    line.append(or_else(description, ""));
    line
}

// ---------------------------------------------------------------- search

/// The scope that the flags of a search pick, where they pick one.
pub open spec fn picked_scope(pull_requests: bool, issues: bool, comments: bool) -> Option<
    SearchScope,
> {
    if (pull_requests && issues) || (pull_requests && comments) || (issues && comments) {
        None
    } else if pull_requests {
        Some(SearchScope::PullRequests)
    } else if issues {
        Some(SearchScope::Issues)
    } else if comments {
        Some(SearchScope::Comments)
    } else {
        Some(SearchScope::All)
    }
}

/// Read a search command: at most one corpus may be picked.
pub fn search_command(
    pull_requests: bool,
    issues: bool,
    comments: bool,
    repo: &Option<String>,
    limit: u32,
) -> (outcome: Result<SearchOptions, Error>)
    ensures
        match picked_scope(pull_requests, issues, comments) {
            None => outcome is Err && is_invalid(
                outcome->Err_0,
                "pick at most one of --pull-requests / --issues / --comments"@,
            ),
            Some(scope) => {
                &&& outcome is Ok
                &&& outcome->Ok_0.scope == scope
                &&& opt_text(outcome->Ok_0.repository) == opt_lowercase(opt_text(*repo))
                &&& outcome->Ok_0.limit == limit
            },
        },
{
    let scope = match (pull_requests, issues, comments) {
        (true, false, false) => SearchScope::PullRequests,
        (false, true, false) => SearchScope::Issues,
        (false, false, true) => SearchScope::Comments,
        (false, false, false) => SearchScope::All,
        _ => {
            return Err(
                Error::InvalidArgument(
                    copy("pick at most one of --pull-requests / --issues / --comments"),
                ),
            );
        },
    };
    let repository = match repo {
        Some(repo) => Some(lower(repo.as_str())),
        None => None,
    };
    Ok(SearchOptions { scope, repository, limit })
}

/// The line of a search hit. A snippet is written on one line.
pub open spec fn hit_text(hit: SearchHit) -> Seq<char> {
    hit.key@ + "\t"@ + hit.kind@ + "\t"@ + text_or_else(opt_text(hit.title), "-"@) + "\t"@
        + replaced(hit.snippet@, '\n', " "@)
}

/// The lines of the search hits.
pub open spec fn hit_texts(hits: Seq<SearchHit>) -> Seq<Seq<char>> {
    if hits.len() == 0 {
        seq!["no matches"@]
    } else {
        hits.map_values(|hit: SearchHit| hit_text(hit))
    }
}

/// The lines of the search hits.
pub fn hit_lines(hits: &Vec<SearchHit>) -> (lines: Vec<String>)
    ensures
        texts(lines@) == hit_texts(hits@),
{
    let mut lines: Vec<String> = Vec::new();
    if hits.len() == 0 {
        push_text(&mut lines, copy("no matches"));
        assert(texts(lines@) =~= hit_texts(hits@));
        return lines;
    }
    let mut i: usize = 0;
    while i < hits.len()
        invariant
            i <= hits.len(),
            texts(lines@) =~= hits@.map_values(|hit: SearchHit| hit_text(hit)).take(i as int),
        decreases hits.len() - i,
    {
        let hit = &hits[i];
        let mut line = join5(
            hit.key.as_str(),
            "\t",
            hit.kind.as_str(),
            "\t",
            or_else(&hit.title, "-"),
        );
        line.append("\t");
        line.append(&replace_char(hit.snippet.as_str(), '\n', " "));
        push_text(&mut lines, line);
        i = i + 1;
    }
    assert(texts(lines@) =~= hit_texts(hits@));
    lines
}

// ---------------------------------------------------------------- laws

/// The word that asks for a format.
pub open spec fn format_word(format: OutputFormat) -> Seq<char> {
    match format {
        OutputFormat::Count => "count"@,
        OutputFormat::CountByAuthor => "count-by-author"@,
        OutputFormat::CountByRepo => "count-by-repo"@,
        OutputFormat::CountByState => "count-by-state"@,
        OutputFormat::CountByPeriod => "count-by-period"@,
        OutputFormat::Json => "json"@,
        OutputFormat::Csv => "csv"@,
        OutputFormat::Table => "table"@,
    }
}

/// The first and the last day that a period gives a filter.
pub open spec fn first_day(period: Option<Seq<char>>, reference: int) -> Option<int> {
    match period {
        Some(text) => match parsed_period(text, reference) {
            Ok(span) => if span is Rolling {
                Some(span_start(span))
            } else {
                None
            },
            Err(_) => None,
        },
        None => None,
    }
}

/// The last day that a period gives a filter.
pub open spec fn last_day(period: Option<Seq<char>>, reference: int) -> Option<int> {
    match period {
        Some(text) => match parsed_period(text, reference) {
            Ok(span) => if span is Rolling {
                Some(span_end(span))
            } else {
                None
            },
            Err(_) => None,
        },
        None => None,
    }
}

/// A query command that is run asks for what its arguments say. The filter keeps
/// to the names, each in its own place, to the states, to the period and to the
/// first and last day, where a day of its own goes before that of the period. The
/// page is the one that is asked for, and the format the one that is named.
pub proof fn law_a_query_command_asks_by_its_arguments(
    arguments: QueryArguments,
    lookups: Lookups,
    reference: int,
)
    ensures
        commanded(arguments, lookups, reference) matches Commanded::Run(filter, format) ==> {
            &&& keeps_to(
                filter,
                opt_text(arguments.author),
                opt_text(arguments.reviewer),
                opt_text(arguments.repo),
                opt_text(arguments.org),
                opt_text(arguments.label),
                lookups,
            )
            &&& forall|stored: Seq<char>| #[trigger]
                filter.states.contains(stored) <==> (arguments.merged && stored == "MERGED"@) || (
                arguments.state is Some && asks_for_state(
                    lowercase(opt_text(arguments.state)->Some_0),
                    stored,
                ))
            &&& match opt_text(arguments.period) {
                Some(text) => {
                    &&& parsed_period(text, reference) is Ok
                    &&& filter.period == (if parsed_period(text, reference)->Ok_0 is Rolling {
                        None
                    } else {
                        Some(span_key(parsed_period(text, reference)->Ok_0))
                    })
                },
                None => filter.period is None,
            }
            &&& match opt_text(arguments.since) {
                Some(text) => date_of(text) is Ok && filter.since == Some(date_of(text)->Ok_0),
                None => filter.since == first_day(opt_text(arguments.period), reference),
            }
            &&& match opt_text(arguments.until) {
                Some(text) => date_of(text) is Ok && filter.until == Some(date_of(text)->Ok_0),
                None => filter.until == last_day(opt_text(arguments.period), reference),
            }
            &&& filter.limit == arguments.limit
            &&& filter.offset == arguments.offset
            &&& format_word(format) == arguments.output@
        },
{
    let chosen = selected(names_in(arguments), lookups);
    law_a_selection_keeps_to_its_names(names_in(arguments), lookups);
    if let Commanded::Run(filter, format) = commanded(arguments, lookups, reference) {
        if let Some(text) = opt_text(arguments.state) {
            law_a_state_is_asked_for_by_its_name(lowercase(text));
        }
        lemma_state_words();
        let first = if arguments.merged {
            seq!["MERGED"@]
        } else {
            Seq::empty()
        };
        let second = match opt_text(arguments.state) {
            Some(text) => seq![state_name(state_called(lowercase(text))->Some_0)],
            None => Seq::empty(),
        };
        assert(filter.states =~= first + second);
        assert forall|stored: Seq<char>| #[trigger]
            filter.states.contains(stored) <==> (arguments.merged && stored == "MERGED"@) || (
            arguments.state is Some && asks_for_state(
                lowercase(opt_text(arguments.state)->Some_0),
                stored,
            )) by {
            if arguments.merged {
                assert(filter.states[0] == "MERGED"@);
            }
            if arguments.state is Some {
                assert(filter.states[first.len() as int] == second[0]);
            }
        }
    }
}

proof fn lemma_state_words()
    ensures
        "open"@ != "merged"@,
        "open"@ != "closed"@,
        "merged"@ != "closed"@,
{
    reveal_strlit("open");
    reveal_strlit("merged");
    reveal_strlit("closed");
    assert("merged"@[0] != "closed"@[0]);
}

/// A flag of a search picks its own corpus, no flag picks all of them, and two
/// flags pick nothing.
pub proof fn law_a_flag_picks_its_corpus(
    pull_requests: bool,
    issues: bool,
    comments: bool,
    kind: HitKind,
)
    ensures
        picked_scope(pull_requests, issues, comments) is None <==> (pull_requests && issues) || (
        pull_requests && comments) || (issues && comments),
        picked_scope(pull_requests, issues, comments) matches Some(scope) ==> (covers(scope, kind)
            <==> (!pull_requests && !issues && !comments) || (match kind {
            HitKind::PullRequest => pull_requests,
            HitKind::Issue => issues,
            HitKind::ReviewComment => comments,
            HitKind::IssueComment => comments,
        })),
{
}

/// A report shows a metric behind a label.
pub open spec fn shows_measure(
    lines: Seq<Seq<char>>,
    label: Seq<char>,
    metric: MetricWithDelta,
    percent: Option<String>,
) -> bool {
    exists|k: int|
        0 <= k < lines.len() && #[trigger] lines[k] == label + measure_text(
            metric,
            opt_text(percent),
        )
}

/// A report shows a leaderboard under a title, where it has ranks.
pub open spec fn shows_board(
    lines: Seq<Seq<char>>,
    title: Seq<char>,
    rows: Seq<EntityMetric>,
) -> bool {
    rows.len() > 0 ==> exists|k: int|
        {
            &&& 0 <= k
            &&& k + rows.len() < lines.len()
            &&& #[trigger] lines[k] == "  "@ + title + ":"@
            &&& forall|i: int|
                0 <= i < rows.len() ==> lines[k + 1 + i] == "    "@ + ranked_text(
                    #[trigger] rows[i],
                )
        }
}

proof fn lemma_board(
    before: Seq<Seq<char>>,
    title: Seq<char>,
    rows: Seq<EntityMetric>,
    behind: Seq<Seq<char>>,
)
    ensures
        shows_board(before + leaderboard_texts(title, rows) + behind, title, rows),
{
    let lines = before + leaderboard_texts(title, rows) + behind;
    if rows.len() > 0 {
        let k = before.len() as int;
        assert(lines[k] == "  "@ + title + ":"@);
        assert forall|i: int| 0 <= i < rows.len() implies lines[k + 1 + i] == "    "@ + ranked_text(
            #[trigger] rows[i],
        ) by {
            assert(leaderboard_texts(title, rows)[1 + i] == "    "@ + ranked_text(rows[i]));
        }
    }
}

/// A user report shows each metric behind the label that names it, and each
/// leaderboard under the title that names it.
pub proof fn law_a_user_report_labels_what_it_shows(
    metrics: UserMetrics,
    aggregations: UserAggregations,
    percents: Seq<Option<String>>,
)
    requires
        percents.len() == 7,
    ensures
        ({
            let lines = user_report_texts(metrics, aggregations, percents);
            &&& shows_measure(lines, "  PRs opened:       "@, metrics.prs_opened, percents[0])
            &&& shows_measure(lines, "  PRs merged:       "@, metrics.prs_merged, percents[1])
            &&& shows_measure(lines, "  Reviews given:    "@, metrics.reviews_given, percents[2])
            &&& shows_measure(lines, "  Reviews received: "@, metrics.reviews_received, percents[3])
            &&& shows_measure(lines, "  Comments given:   "@, metrics.comments_given, percents[4])
            &&& shows_measure(lines, "  Lines added:      "@, metrics.lines_added, percents[5])
            &&& shows_measure(lines, "  Lines removed:    "@, metrics.lines_removed, percents[6])
            &&& shows_board(lines, "Top repos"@, aggregations.top_repos@)
            &&& shows_board(lines, "Top by reviews given"@, aggregations.top_reviewers@)
            &&& shows_board(lines, "Top reviewed authors"@, aggregations.top_reviewed_authors@)
        }),
{
    let lines = user_report_texts(metrics, aggregations, percents);
    let measures = user_measure_texts(metrics, percents);
    assert forall|i: int| 0 <= i < 7 implies lines[i + 1] == #[trigger] measures[i] by {}
    assert(lines[1] == measures[0]);
    assert(lines[2] == measures[1]);
    assert(lines[3] == measures[2]);
    assert(lines[4] == measures[3]);
    assert(lines[5] == measures[4]);
    assert(lines[6] == measures[5]);
    assert(lines[7] == measures[6]);
    let repos = leaderboard_texts("Top repos"@, aggregations.top_repos@);
    let given = leaderboard_texts("Top by reviews given"@, aggregations.top_reviewers@);
    let authors = leaderboard_texts("Top reviewed authors"@, aggregations.top_reviewed_authors@);
    let head = lines.take(8);
    assert(lines =~= head + repos + (given + authors));
    lemma_board(head, "Top repos"@, aggregations.top_repos@, given + authors);
    assert(lines =~= (head + repos) + given + authors);
    lemma_board(head + repos, "Top by reviews given"@, aggregations.top_reviewers@, authors);
    assert(lines =~= (head + repos + given) + authors + Seq::<Seq<char>>::empty());
    lemma_board(
        head + repos + given,
        "Top reviewed authors"@,
        aggregations.top_reviewed_authors@,
        Seq::empty(),
    );
}

/// A repository report shows each metric behind the label that names it, and each
/// leaderboard under the title that names it.
pub proof fn law_a_repo_report_labels_what_it_shows(
    metrics: RepoMetrics,
    aggregations: RepoAggregations,
    percents: Seq<Option<String>>,
    rate: Option<Seq<char>>,
)
    requires
        percents.len() == 4,
    ensures
        ({
            let lines = repo_report_texts(metrics, aggregations, percents, rate);
            &&& shows_measure(lines, "  PRs opened:  "@, metrics.prs_opened, percents[0])
            &&& shows_measure(lines, "  PRs merged:  "@, metrics.prs_merged, percents[1])
            &&& shows_measure(lines, "  Reviews:     "@, metrics.total_reviews, percents[2])
            &&& shows_measure(lines, "  Comments:    "@, metrics.total_comments, percents[3])
            &&& rate matches Some(text) ==> lines.len() > 5 && lines[5]
                == "  Check failure rate: "@ + text + "%"@
            &&& shows_board(lines, "Top contributors"@, aggregations.top_contributors@)
            &&& shows_board(lines, "Top mergers"@, aggregations.top_mergers@)
            &&& shows_board(lines, "Top by reviews given"@, aggregations.top_reviewers@)
            &&& shows_board(lines, "Top commenters"@, aggregations.top_commenters@)
        }),
{
    let lines = repo_report_texts(metrics, aggregations, percents, rate);
    let measures = repo_measure_texts(metrics, percents);
    assert(lines[1] == measures[0]);
    assert(lines[2] == measures[1]);
    assert(lines[3] == measures[2]);
    assert(lines[4] == measures[3]);
    let contributors = leaderboard_texts("Top contributors"@, aggregations.top_contributors@);
    let mergers = leaderboard_texts("Top mergers"@, aggregations.top_mergers@);
    let given = leaderboard_texts("Top by reviews given"@, aggregations.top_reviewers@);
    let commenters = leaderboard_texts("Top commenters"@, aggregations.top_commenters@);
    let head = lines.take(5 + rate_texts(rate).len() as int);
    assert(lines =~= head + contributors + (mergers + given + commenters));
    lemma_board(
        head,
        "Top contributors"@,
        aggregations.top_contributors@,
        mergers + given + commenters,
    );
    assert(lines =~= (head + contributors) + mergers + (given + commenters));
    lemma_board(
        head + contributors,
        "Top mergers"@,
        aggregations.top_mergers@,
        given + commenters,
    );
    assert(lines =~= (head + contributors + mergers) + given + commenters);
    lemma_board(
        head + contributors + mergers,
        "Top by reviews given"@,
        aggregations.top_reviewers@,
        commenters,
    );
    assert(lines =~= (head + contributors + mergers + given) + commenters
        + Seq::<Seq<char>>::empty());
    lemma_board(
        head + contributors + mergers + given,
        "Top commenters"@,
        aggregations.top_commenters@,
        Seq::empty(),
    );
}

/// A group report shows each metric that it has behind the label that names it.
pub proof fn law_a_group_report_labels_what_it_shows(
    metrics: GroupMetrics,
    percents: Seq<Option<String>>,
)
    requires
        percents.len() == 5,
    ensures
        ({
            let lines = group_report_texts(metrics, percents);
            &&& shows_measure(lines, "  PRs opened: "@, metrics.prs_opened, percents[0])
            &&& shows_measure(lines, "  PRs merged: "@, metrics.prs_merged, percents[1])
            &&& metrics.reviews_given matches Some(given) ==> shows_measure(
                lines,
                "  Reviews given (to non-members): "@,
                given,
                percents[2],
            )
            &&& metrics.total_reviews matches Some(reviews) ==> shows_measure(
                lines,
                "  Reviews: "@,
                reviews,
                percents[3],
            )
            &&& metrics.total_comments matches Some(comments) ==> shows_measure(
                lines,
                "  Comments: "@,
                comments,
                percents[4],
            )
        }),
{
    let lines = group_report_texts(metrics, percents);
    assert(lines[1] == labeled_measure("  PRs opened: "@, metrics.prs_opened, percents[0]));
    assert(lines[2] == labeled_measure("  PRs merged: "@, metrics.prs_merged, percents[1]));
    let given = optional_measure(
        "  Reviews given (to non-members): "@,
        metrics.reviews_given,
        percents[2],
    );
    let reviews = optional_measure("  Reviews: "@, metrics.total_reviews, percents[3]);
    let comments = optional_measure("  Comments: "@, metrics.total_comments, percents[4]);
    if metrics.reviews_given is Some {
        assert(lines[3] == given[0]);
    }
    if metrics.total_reviews is Some {
        assert(lines[3 + given.len() as int] == reviews[0]);
    }
    if metrics.total_comments is Some {
        assert(lines[3 + given.len() as int + reviews.len() as int] == comments[0]);
    }
}

/// A value is read under the key that it was written for, and it is the value that
/// the statement binds to the column of values.
pub proof fn law_a_setting_is_read_where_it_was_written(key: Seq<char>, value: Seq<char>)
    ensures
        set_command(key, value).sql == "INSERT INTO config (key, value) VALUES (?1, ?2)
                         ON CONFLICT (key) DO UPDATE SET value = excluded.value"@,
        get_command(key).sql == "SELECT value FROM config WHERE key = ?1"@,
        set_command(key, value).params.len() == 2,
        get_command(key).params == seq![set_command(key, value).params[0]],
        set_command(key, value).params[0] == Cell::Text(key),
        set_command(key, value).params[1] == Cell::Text(value),
{
}

} // verus!
