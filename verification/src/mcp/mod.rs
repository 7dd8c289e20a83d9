//! The tools that the MCP server offers: what a call asks for, and which calls
//! are refused.

pub mod params;

use vstd::prelude::*;
use crate::calendar::Date;
use crate::mcp::params::{MetricsParams, MonitorParams, QueryParams, SearchParams, SyncParams};
use crate::period::{has_range, lacks_week, parsed_period, Period, Span};
use crate::query::{
    asks_for_state, bare_login, keeps_to, keeps_to_days, law_a_selection_keeps_to_its_names,
    law_a_state_is_asked_for_by_its_name, opt_lowercase, parse_state, selected, state_called,
    state_name, within_span, Filter, Lookups, Names, QueryBuilder, Selection,
};
use crate::search::{covers, HitKind, SearchOptions, SearchScope};
use crate::sql::{commands, Cell, Command, Statement};
use crate::storage::monitor_repository::{
    add_org, add_repo, add_user, adds_to, command_on, expected_owner_and_name, lemma_monitor_texts,
    remove, remove_commands, ADD_ORG_SQL, ADD_REPO_SQL, ADD_USER_SQL, MonitoredSource,
};
use crate::sync::SyncOptions;
use crate::text::{as_slice, copy, copy_opt, join3, lower, lowercase, opt_text, same, texts};

verus! {

/// What the server tells its clients.
pub const INSTRUCTIONS: &'static str = "githubdw is a local SQLite warehouse of GitHub pull requests, reviews, comments, and issues. Use query_pull_requests for filtered listings and counts, get_metrics for period-over-period analytics and leaderboards, search for full-text lookup, manage_monitors to control what is tracked, and trigger_sync to refresh data from GitHub.";

/// What `query_pull_requests` does.
pub const QUERY_DESCRIPTION: &'static str = "Query pull requests from the local warehouse. Filter by author, who reviewed, repo, org, user/repo group, state (open/merged/closed), label, and period. Use output='count' for totals or 'count_by_author'/'count_by_repo'/'count_by_state'/'count_by_period' for breakdowns.";

/// What `get_metrics` does.
pub const METRICS_DESCRIPTION: &'static str = "Period-over-period metrics for a user, repo, user_group, or repo_group. Returns PR counts, reviews, comments, and churn with deltas vs. the previous period, plus ranked leaderboards.";

/// What `search` does.
pub const SEARCH_DESCRIPTION: &'static str = "Full-text search across synced pull request and issue titles, bodies, and comments (SQLite FTS5 trigram — substrings of 3+ characters match).";

/// What `manage_monitors` does.
pub const MONITORS_DESCRIPTION: &'static str = "List, add, or remove monitored users, repos, and orgs. action='list' (default) shows everything currently tracked.";

/// What `trigger_sync` does.
pub const SYNC_DESCRIPTION: &'static str = "Fetch fresh pull-request and issue data for a repository from the GitHub API into the local database. Specify days to bound the window. Requires an authenticated gh CLI.";

/// A word that is not among the expected ones.
pub open spec fn unknown(what: Seq<char>, word: Seq<char>, expected: Seq<char>) -> Seq<char> {
    "unknown "@ + what + " '"@ + word + "', "@ + expected
}

fn unknown_text(what: &str, word: &str, expected: &str) -> (message: String)
    ensures
        message@ == unknown(what@, word@, expected@),
{
    let mut message = join3("unknown ", what, " '");
    message.append(word);
    message.append("', ");
    message.append(expected);
    message
}

/// The message of an argument error.
pub open spec fn argument_error(detail: Seq<char>) -> Seq<char> {
    "invalid argument: "@ + detail
}

// ---------------------------------------------------------------- queries

/// What a query is asked for.
#[derive(Debug, Clone, Copy, PartialEq, Eq, Structural)]
pub enum QueryOutput {
    PullRequests,
    Count,
    CountByAuthor,
    CountByRepo,
    CountByState,
    CountByPeriod,
}

/// The output with a name.
pub open spec fn output_called(word: Seq<char>) -> Option<QueryOutput> {
    if word == "count"@ {
        Some(QueryOutput::Count)
    } else if word == "count_by_author"@ {
        Some(QueryOutput::CountByAuthor)
    } else if word == "count_by_repo"@ {
        Some(QueryOutput::CountByRepo)
    } else if word == "count_by_state"@ {
        Some(QueryOutput::CountByState)
    } else if word == "count_by_period"@ {
        Some(QueryOutput::CountByPeriod)
    } else if word == "pull_requests"@ {
        Some(QueryOutput::PullRequests)
    } else {
        None
    }
}

fn parse_output(word: &str) -> (output: Option<QueryOutput>)
    ensures
        output == output_called(word@),
{
    if same(word, "count") {
        Some(QueryOutput::Count)
    } else if same(word, "count_by_author") {
        Some(QueryOutput::CountByAuthor)
    } else if same(word, "count_by_repo") {
        Some(QueryOutput::CountByRepo)
    } else if same(word, "count_by_state") {
        Some(QueryOutput::CountByState)
    } else if same(word, "count_by_period") {
        Some(QueryOutput::CountByPeriod)
    } else if same(word, "pull_requests") {
        Some(QueryOutput::PullRequests)
    } else {
        None
    }
}

/// The outcome of reading a query call.
#[derive(Debug, PartialEq, Eq)]
pub enum QueryCall {
    /// Run the query and answer with the output.
    Run(QueryBuilder, QueryOutput),
    /// The period begins before the first day of the calendar.
    OutOfCalendar,
    /// The call is refused with a message.
    Refused(String),
}

/// The model of the outcome.
pub ghost enum Asked {
    Run(Filter, QueryOutput),
    OutOfCalendar,
    Refused(Seq<char>),
}

impl View for QueryCall {
    type V = Asked;

    open spec fn view(&self) -> Asked {
        match *self {
            QueryCall::Run(query, output) => Asked::Run(query@, output),
            QueryCall::OutOfCalendar => Asked::OutOfCalendar,
            QueryCall::Refused(message) => Asked::Refused(message@),
        }
    }
}

/// The names in the parameters of a query.
pub open spec fn names_in(params: QueryParams) -> Names {
    Names {
        author: opt_text(params.author),
        reviewer: opt_text(params.reviewer),
        repo: opt_text(params.repo),
        org: opt_text(params.org),
        label: opt_text(params.label),
    }
}

/// The last step of reading a query call: the output, and the rows to return
/// where pull requests are listed.
pub open spec fn asked_output(filter: Filter, params: QueryParams) -> Asked {
    let word = match opt_text(params.output) {
        Some(word) => word,
        None => "pull_requests"@,
    };
    match output_called(word) {
        Some(QueryOutput::PullRequests) => Asked::Run(
            Filter {
                limit: Some(
                    match params.limit {
                        Some(limit) => limit,
                        None => 50,
                    },
                ),
                offset: match params.offset {
                    Some(offset) => Some(offset),
                    None => filter.offset,
                },
                ..filter
            },
            QueryOutput::PullRequests,
        ),
        Some(output) => Asked::Run(filter, output),
        None => Asked::Refused(
            unknown(
                "output"@,
                word,
                "use: pull_requests, count, count_by_author, count_by_repo, count_by_state, count_by_period"@,
            ),
        ),
    }
}

/// The second step of reading a query call: the period.
pub open spec fn asked_period(filter: Filter, params: QueryParams, reference: int) -> Asked {
    match opt_text(params.period) {
        None => asked_output(filter, params),
        Some(text) => if lacks_week(text, reference) {
            Asked::OutOfCalendar
        } else {
            match parsed_period(text, reference) {
                Ok(span) => if span is Rolling && !has_range(span) {
                    Asked::OutOfCalendar
                } else {
                    asked_output(within_span(filter, span), params)
                },
                Err(detail) => Asked::Refused(argument_error(detail)),
            }
        },
    }
}

/// What a query call asks for: the names, then the state, the period and the
/// output, where the first that cannot be read refuses the call.
pub open spec fn asked(params: QueryParams, lookups: Lookups, reference: int) -> Asked {
    let filter = selected(names_in(params), lookups);
    match opt_text(params.state) {
        None => asked_period(filter, params, reference),
        Some(text) => match state_called(lowercase(text)) {
            Some(state) => asked_period(
                Filter { states: filter.states.push(state_name(state)), ..filter },
                params,
                reference,
            ),
            None => Asked::Refused(
                unknown("state"@, lowercase(text), "use: open, merged, closed"@),
            ),
        },
    }
}

fn output_of(query: QueryBuilder, params: &QueryParams) -> (call: QueryCall)
    ensures
        call@ == asked_output(query@, *params),
{
    let word = match as_slice(&params.output) {
        Some(word) => word,
        None => "pull_requests",
    };
    match parse_output(word) {
        Some(QueryOutput::PullRequests) => {
            let limit: u32 = match params.limit {
                Some(limit) => limit,
                None => 50,
            };
            let mut paged = query.limit(limit);
            if let Some(offset) = params.offset {
                paged = paged.offset(offset);
            }
            QueryCall::Run(paged, QueryOutput::PullRequests)
        },
        Some(output) => QueryCall::Run(query, output),
        None => QueryCall::Refused(
            unknown_text(
                "output",
                word,
                "use: pull_requests, count, count_by_author, count_by_repo, count_by_state, count_by_period",
            ),
        ),
    }
}

/// Read a call of `query_pull_requests`, given what the warehouse knows of its
/// names and the date that relative periods are resolved against.
pub fn query_pull_requests(params: &QueryParams, lookups: &Lookups, reference: Date) -> (call:
    QueryCall)
    ensures
        call@ == asked(*params, *lookups, reference@),
{
    let selection = Selection {
        author: copy_opt(as_slice(&params.author)),
        reviewer: copy_opt(as_slice(&params.reviewer)),
        repo: copy_opt(as_slice(&params.repo)),
        org: copy_opt(as_slice(&params.org)),
        label: copy_opt(as_slice(&params.label)),
    };
    let mut query = QueryBuilder::select(&selection, lookups);
    assert(query@ == selected(names_in(*params), *lookups));
    if let Some(text) = &params.state {
        match parse_state(text.as_str()) {
            Ok(state) => {
                query = query.state(state);
            },
            Err(word) => {
                return QueryCall::Refused(
                    unknown_text("state", &word, "use: open, merged, closed"),
                );
            },
        }
    }
    if let Some(text) = &params.period {
        let period = match Period::parse_in_calendar(text.as_str(), reference) {
            Some(Ok(period)) => period,
            Some(Err(error)) => {
                return QueryCall::Refused(error.message());
            },
            None => {
                return QueryCall::OutOfCalendar;
            },
        };
        if let Period::Rolling(_, _) = period {
            if !period.has_dates() {
                return QueryCall::OutOfCalendar;
            }
        }
        query = query.within(period);
    }
    output_of(query, params)
}

// ---------------------------------------------------------------- metrics

/// What metrics are asked of.
#[derive(Debug, Clone, Copy, PartialEq, Eq, Structural)]
pub enum MetricsSubject {
    User,
    Repo,
    UserGroup,
    RepoGroup,
}

/// The subject with a name.
pub open spec fn subject_called(word: Seq<char>) -> Option<MetricsSubject> {
    if word == "user"@ {
        Some(MetricsSubject::User)
    } else if word == "repo"@ {
        Some(MetricsSubject::Repo)
    } else if word == "user_group"@ {
        Some(MetricsSubject::UserGroup)
    } else if word == "repo_group"@ {
        Some(MetricsSubject::RepoGroup)
    } else {
        None
    }
}

/// The number of ranks in the leaderboards of a metrics call.
pub const LEADERBOARD_SIZE: u32 = 10;

/// The outcome of reading a metrics call.
#[derive(Debug, PartialEq, Eq)]
pub enum MetricsCall {
    /// Report on the subject over the period.
    Run(MetricsSubject, Period),
    /// The period begins before the first day of the calendar.
    OutOfCalendar,
    /// The call is refused with a message.
    Refused(String),
}

/// The model of the outcome.
pub ghost enum MetricsAsked {
    Run(MetricsSubject, Span),
    OutOfCalendar,
    Refused(Seq<char>),
}

impl View for MetricsCall {
    type V = MetricsAsked;

    open spec fn view(&self) -> MetricsAsked {
        match *self {
            MetricsCall::Run(subject, period) => MetricsAsked::Run(subject, period@),
            MetricsCall::OutOfCalendar => MetricsAsked::OutOfCalendar,
            MetricsCall::Refused(message) => MetricsAsked::Refused(message@),
        }
    }
}

/// What a metrics call asks for: the period is read first, then the subject.
pub open spec fn asked_metrics(params: MetricsParams, reference: int) -> MetricsAsked {
    if lacks_week(params.period@, reference) {
        MetricsAsked::OutOfCalendar
    } else {
        match parsed_period(params.period@, reference) {
            Err(detail) => MetricsAsked::Refused(argument_error(detail)),
            Ok(span) => match subject_called(params.entity_type@) {
                Some(subject) => MetricsAsked::Run(subject, span),
                None => MetricsAsked::Refused(
                    unknown(
                        "entity_type"@,
                        params.entity_type@,
                        "use: user, repo, user_group, repo_group"@,
                    ),
                ),
            },
        }
    }
}

/// Read a call of `get_metrics`: the period first, then the subject.
pub fn get_metrics(params: &MetricsParams, reference: Date) -> (call: MetricsCall)
    ensures
        call@ == asked_metrics(*params, reference@),
{
    let period = match Period::parse_in_calendar(params.period.as_str(), reference) {
        Some(Ok(period)) => period,
        Some(Err(error)) => {
            return MetricsCall::Refused(error.message());
        },
        None => {
            return MetricsCall::OutOfCalendar;
        },
    };
    let word = params.entity_type.as_str();
    if same(word, "user") {
        MetricsCall::Run(MetricsSubject::User, period)
    } else if same(word, "repo") {
        MetricsCall::Run(MetricsSubject::Repo, period)
    } else if same(word, "user_group") {
        MetricsCall::Run(MetricsSubject::UserGroup, period)
    } else if same(word, "repo_group") {
        MetricsCall::Run(MetricsSubject::RepoGroup, period)
    } else {
        MetricsCall::Refused(
            unknown_text("entity_type", word, "use: user, repo, user_group, repo_group"),
        )
    }
}

// ---------------------------------------------------------------- search

/// The scope with a name.
pub open spec fn scope_called(word: Seq<char>) -> Option<SearchScope> {
    if word == "all"@ {
        Some(SearchScope::All)
    } else if word == "pull_requests"@ {
        Some(SearchScope::PullRequests)
    } else if word == "issues"@ {
        Some(SearchScope::Issues)
    } else if word == "comments"@ {
        Some(SearchScope::Comments)
    } else {
        None
    }
}

/// The word that a scope is asked for with.
pub open spec fn scope_word(params: SearchParams) -> Seq<char> {
    match opt_text(params.scope) {
        Some(word) => word,
        None => "all"@,
    }
}

/// Read a call of `search`.
pub fn search(params: &SearchParams) -> (outcome: Result<SearchOptions, String>)
    ensures
        match scope_called(scope_word(*params)) {
            Some(scope) => {
                &&& outcome is Ok
                &&& outcome->Ok_0.scope == scope
                &&& opt_text(outcome->Ok_0.repository) == opt_lowercase(opt_text(params.repository))
                &&& outcome->Ok_0.limit == (match params.limit {
                    Some(limit) => limit,
                    None => 50,
                })
            },
            None => outcome is Err && outcome->Err_0@ == unknown(
                "scope"@,
                scope_word(*params),
                "use: all, pull_requests, issues, comments"@,
            ),
        },
{
    let word = match as_slice(&params.scope) {
        Some(word) => word,
        None => "all",
    };
    let scope = if same(word, "all") {
        SearchScope::All
    } else if same(word, "pull_requests") {
        SearchScope::PullRequests
    } else if same(word, "issues") {
        SearchScope::Issues
    } else if same(word, "comments") {
        SearchScope::Comments
    } else {
        return Err(unknown_text("scope", word, "use: all, pull_requests, issues, comments"));
    };
    let repository = match &params.repository {
        Some(repository) => Some(lower(repository.as_str())),
        None => None,
    };
    let limit: u32 = match params.limit {
        Some(limit) => limit,
        None => 50,
    };
    Ok(SearchOptions { scope, repository, limit })
}

// ---------------------------------------------------------------- monitors

/// The outcome of reading a monitor call.
#[derive(Debug, PartialEq, Eq)]
pub enum MonitorCall {
    /// List what is monitored.
    List,
    /// Run the statement that adds a source.
    Add(Statement),
    /// Run the statements that remove a source, and count the rows.
    Remove(Vec<Statement>),
    /// The call is refused with a message.
    Refused(String),
}

/// The model of the outcome.
#[verifier::ext_equal]
pub ghost enum Monitoring {
    List,
    Add(Command),
    Remove(Seq<Command>),
    Refused(Seq<char>),
}

impl View for MonitorCall {
    type V = Monitoring;

    open spec fn view(&self) -> Monitoring {
        match *self {
            MonitorCall::List => Monitoring::List,
            MonitorCall::Add(statement) => Monitoring::Add(statement@),
            MonitorCall::Remove(statements) => Monitoring::Remove(commands(statements@)),
            MonitorCall::Refused(message) => Monitoring::Refused(message@),
        }
    }
}

/// Adding a source of a type.
pub open spec fn adding(entity_type: Seq<char>, name: Seq<char>) -> Monitoring {
    if entity_type == "user"@ {
        Monitoring::Add(command_on(ADD_USER_SQL@, bare_login(name)))
    } else if entity_type == "repo"@ {
        if name.contains('/') {
            Monitoring::Add(command_on(ADD_REPO_SQL@, lowercase(name)))
        } else {
            Monitoring::Refused(argument_error(expected_owner_and_name(name)))
        }
    } else if entity_type == "org"@ {
        Monitoring::Add(command_on(ADD_ORG_SQL@, lowercase(name)))
    } else {
        Monitoring::Refused(unknown("entity_type"@, entity_type, "use: user, repo, org"@))
    }
}

/// What a monitor call asks for.
pub open spec fn monitoring(params: MonitorParams) -> Monitoring {
    let action = match opt_text(params.action) {
        Some(action) => action,
        None => "list"@,
    };
    if action == "list"@ {
        Monitoring::List
    } else if action == "add"@ || action == "remove"@ {
        match (opt_text(params.entity_type), opt_text(params.name)) {
            (None, _) => Monitoring::Refused("entity_type is required for add/remove"@),
            (Some(_), None) => Monitoring::Refused("name is required for add/remove"@),
            (Some(entity_type), Some(name)) => if action == "add"@ {
                adding(entity_type, name)
            } else {
                Monitoring::Remove(remove_commands(name))
            },
        }
    } else {
        Monitoring::Refused(unknown("action"@, action, "use: list, add, remove"@))
    }
}

fn add_source(entity_type: &str, name: &str) -> (call: MonitorCall)
    ensures
        call@ == adding(entity_type@, name@),
{
    if same(entity_type, "user") {
        MonitorCall::Add(add_user(name))
    } else if same(entity_type, "repo") {
        match add_repo(name) {
            Ok(statement) => MonitorCall::Add(statement),
            Err(error) => MonitorCall::Refused(error.message()),
        }
    } else if same(entity_type, "org") {
        MonitorCall::Add(add_org(name))
    } else {
        MonitorCall::Refused(unknown_text("entity_type", entity_type, "use: user, repo, org"))
    }
}

/// Read a call of `manage_monitors`.
pub fn manage_monitors(params: &MonitorParams) -> (call: MonitorCall)
    ensures
        call@ == monitoring(*params),
{
    let action = match as_slice(&params.action) {
        Some(action) => action,
        None => "list",
    };
    if same(action, "list") {
        return MonitorCall::List;
    }
    let adds = same(action, "add");
    if !adds && !same(action, "remove") {
        return MonitorCall::Refused(unknown_text("action", action, "use: list, add, remove"));
    }
    let entity_type = match as_slice(&params.entity_type) {
        Some(entity_type) => entity_type,
        None => {
            return MonitorCall::Refused(copy("entity_type is required for add/remove"));
        },
    };
    let name = match as_slice(&params.name) {
        Some(name) => name,
        None => {
            return MonitorCall::Refused(copy("name is required for add/remove"));
        },
    };
    if adds {
        add_source(entity_type, name)
    } else {
        MonitorCall::Remove(remove(name))
    }
}

/// A source that was not monitored cannot be removed.
pub fn removal_outcome(removed: usize, name: &str) -> (outcome: Result<(), String>)
    ensures
        if removed == 0 {
            outcome is Err && outcome->Err_0@ == "'"@ + name@ + "' is not monitored"@
        } else {
            outcome is Ok
        },
{
    if removed == 0 {
        Err(join3("'", name, "' is not monitored"))
    } else {
        Ok(())
    }
}

/// The monitored sources by type.
#[derive(Debug, PartialEq, Eq)]
pub struct SourceLists {
    pub users: Vec<String>,
    pub repos: Vec<String>,
    pub orgs: Vec<String>,
}

/// The sources of one type among the first `n`, in list order.
pub open spec fn sources_of(sources: Seq<MonitoredSource>, n: int, wanted: Seq<char>) -> Seq<
    Seq<char>,
>
    decreases n,
{
    if n <= 0 {
        Seq::empty()
    } else if sources[n - 1].source_type@ == wanted {
        sources_of(sources, n - 1, wanted).push(sources[n - 1].identifier@)
    } else {
        sources_of(sources, n - 1, wanted)
    }
}

fn identifiers(sources: &Vec<MonitoredSource>, wanted: &str) -> (list: Vec<String>)
    ensures
        texts(list@) == sources_of(sources@, sources@.len() as int, wanted@),
{
    let mut list: Vec<String> = Vec::new();
    let mut i: usize = 0;
    assert(texts(list@) =~= sources_of(sources@, 0, wanted@));
    while i < sources.len()
        invariant
            i <= sources.len(),
            texts(list@) == sources_of(sources@, i as int, wanted@),
        decreases sources.len() - i,
    {
        if same(sources[i].source_type.as_str(), wanted) {
            let ghost before = list@;
            list.push(copy(sources[i].identifier.as_str()));
            assert(texts(list@) =~= texts(before).push(sources@[i as int].identifier@));
        }
        i = i + 1;
    }
    list
}

/// List the monitored sources by type.
pub fn list_sources(sources: &Vec<MonitoredSource>) -> (lists: SourceLists)
    ensures
        texts(lists.users@) == sources_of(sources@, sources@.len() as int, "user"@),
        texts(lists.repos@) == sources_of(sources@, sources@.len() as int, "repo"@),
        texts(lists.orgs@) == sources_of(sources@, sources@.len() as int, "org"@),
{
    SourceLists {
        users: identifiers(sources, "user"),
        repos: identifiers(sources, "repo"),
        orgs: identifiers(sources, "org"),
    }
}

// ---------------------------------------------------------------- sync

/// Read a call of `trigger_sync`: the options of the run.
pub fn trigger_sync(params: &SyncParams) -> (outcome: Result<SyncOptions, String>)
    ensures
        if params.entity_type@ == "repo"@ {
            outcome is Ok && outcome->Ok_0 == (SyncOptions {
                days: Some(
                    match params.days {
                        Some(days) => days,
                        None => 30,
                    },
                ),
                skip_diffs: false,
                pull_requests_only: false,
                issues_only: false,
            })
        } else {
            outcome is Err && outcome->Err_0@ == unknown(
                "entity_type"@,
                params.entity_type@,
                "only 'repo' is supported"@,
            )
        },
{
    if !same(params.entity_type.as_str(), "repo") {
        return Err(
            unknown_text("entity_type", params.entity_type.as_str(), "only 'repo' is supported"),
        );
    }
    let days: u32 = match params.days {
        Some(days) => days,
        None => 30,
    };
    Ok(
        SyncOptions {
            days: Some(days),
            skip_diffs: false,
            pull_requests_only: false,
            issues_only: false,
        },
    )
}

// ---------------------------------------------------------------- laws

/// The word that asks for an output.
pub open spec fn output_word(output: QueryOutput) -> Seq<char> {
    match output {
        QueryOutput::PullRequests => "pull_requests"@,
        QueryOutput::Count => "count"@,
        QueryOutput::CountByAuthor => "count_by_author"@,
        QueryOutput::CountByRepo => "count_by_repo"@,
        QueryOutput::CountByState => "count_by_state"@,
        QueryOutput::CountByPeriod => "count_by_period"@,
    }
}

/// A query call that is run asks for what its parameters say. The filter keeps to
/// the names, each in its own place, to the state and to the days of the period.
/// The output is the one that is named, a listing where none is. A listing stops
/// at its page; a count is over everything that is selected.
pub proof fn law_a_query_call_asks_by_its_parameters(
    params: QueryParams,
    lookups: Lookups,
    reference: int,
)
    ensures
        asked(params, lookups, reference) matches Asked::Run(filter, output) ==> {
            &&& keeps_to(
                filter,
                opt_text(params.author),
                opt_text(params.reviewer),
                opt_text(params.repo),
                opt_text(params.org),
                opt_text(params.label),
                lookups,
            )
            &&& match opt_text(params.state) {
                Some(word) => filter.states.len() == 1 && asks_for_state(
                    lowercase(word),
                    filter.states[0],
                ),
                None => filter.states.len() == 0,
            }
            &&& match opt_text(params.period) {
                Some(text) => parsed_period(text, reference) is Ok && keeps_to_days(
                    filter,
                    parsed_period(text, reference)->Ok_0,
                ),
                None => filter.period is None && filter.since is None && filter.until is None,
            }
            &&& output_word(output) == (match opt_text(params.output) {
                Some(word) => word,
                None => "pull_requests"@,
            })
            &&& if output is PullRequests {
                filter.limit is Some && (params.limit is Some ==> filter.limit == params.limit)
                    && filter.offset == params.offset
            } else {
                filter.limit is None && filter.offset is None
            }
        },
{
    law_a_selection_keeps_to_its_names(names_in(params), lookups);
    if let Some(word) = opt_text(params.state) {
        law_a_state_is_asked_for_by_its_name(lowercase(word));
    }
}

/// The word that names a subject.
pub open spec fn subject_word(subject: MetricsSubject) -> Seq<char> {
    match subject {
        MetricsSubject::User => "user"@,
        MetricsSubject::Repo => "repo"@,
        MetricsSubject::UserGroup => "user_group"@,
        MetricsSubject::RepoGroup => "repo_group"@,
    }
}

/// A metrics call that is run reports on the kind of subject that is named, over
/// the period that is named.
pub proof fn law_a_metrics_call_reports_on_its_subject(params: MetricsParams, reference: int)
    ensures
        asked_metrics(params, reference) matches MetricsAsked::Run(subject, span) ==> {
            &&& subject_word(subject) == params.entity_type@
            &&& parsed_period(params.period@, reference) == Ok::<Span, Seq<char>>(span)
        },
{
}

/// The word asks for a kind of hits.
pub open spec fn word_covers(word: Seq<char>, kind: HitKind) -> bool {
    match kind {
        HitKind::PullRequest => word == "all"@ || word == "pull_requests"@,
        HitKind::Issue => word == "all"@ || word == "issues"@,
        HitKind::ReviewComment => word == "all"@ || word == "comments"@,
        HitKind::IssueComment => word == "all"@ || word == "comments"@,
    }
}

/// A search looks for the kinds of hits that its word names, for all where it
/// names none.
pub proof fn law_a_search_call_looks_for_what_it_names(params: SearchParams, kind: HitKind)
    ensures
        scope_called(scope_word(params)) matches Some(scope) ==> (covers(scope, kind)
            <==> word_covers(scope_word(params), kind)),
        params.scope is None ==> scope_called(scope_word(params)) is Some && covers(
            scope_called(scope_word(params))->Some_0,
            kind,
        ),
{
    reveal_strlit("all");
    reveal_strlit("pull_requests");
    reveal_strlit("issues");
    reveal_strlit("comments");
    assert("issues"@[0] != "comments"@[0]);
}

/// The command adds the source that is named to the table of its kind: a user by
/// the bare login, a repository or an owner in lower case.
pub open spec fn adds_named(command: Command, entity_type: Seq<char>, name: Seq<char>) -> bool {
    ||| {
        &&& entity_type == "user"@
        &&& adds_to(command, "monitored_users"@, "login"@)
        &&& command.params == seq![Cell::Text(bare_login(name))]
    }
    ||| {
        &&& entity_type == "repo"@
        &&& adds_to(command, "monitored_repos"@, "repo_key"@)
        &&& command.params == seq![Cell::Text(lowercase(name))]
    }
    ||| {
        &&& entity_type == "org"@
        &&& adds_to(command, "monitored_orgs"@, "org_login"@)
        &&& command.params == seq![Cell::Text(lowercase(name))]
    }
}

/// A monitor call does what its action says: it lists, adds the source that is
/// named to the table of its kind, or removes it. Nothing is written by a call
/// that is refused.
pub proof fn law_a_monitor_call_does_what_it_says(params: MonitorParams)
    ensures
        monitoring(params) is List <==> params.action is None || opt_text(params.action) == Some(
            "list"@,
        ),
        monitoring(params) matches Monitoring::Add(command) ==> opt_text(params.action) == Some(
            "add"@,
        ) && params.entity_type is Some && params.name is Some && adds_named(
            command,
            opt_text(params.entity_type)->Some_0,
            opt_text(params.name)->Some_0,
        ),
        monitoring(params) matches Monitoring::Remove(list) ==> opt_text(params.action) == Some(
            "remove"@,
        ) && params.name is Some && list == remove_commands(opt_text(params.name)->Some_0),
{
    lemma_monitor_texts();
}

proof fn lemma_sources(sources: Seq<MonitoredSource>, n: int, wanted: Seq<char>, name: Seq<char>)
    requires
        0 <= n <= sources.len(),
    ensures
        sources_of(sources, n, wanted).contains(name) <==> exists|i: int|
            0 <= i < n && (#[trigger] sources[i]).source_type@ == wanted && sources[i].identifier@
                == name,
    decreases n,
{
    if n > 0 {
        lemma_sources(sources, n - 1, wanted, name);
        let before = sources_of(sources, n - 1, wanted);
        let last = sources[n - 1];
        if last.source_type@ == wanted {
            let after = before.push(last.identifier@);
            assert(after[before.len() as int] == last.identifier@);
            if before.contains(name) {
                let k = choose|k: int| 0 <= k < before.len() && before[k] == name;
                assert(after[k] == name);
            }
            if after.contains(name) && name != last.identifier@ {
                let k = choose|k: int| 0 <= k < after.len() && after[k] == name;
                assert(before[k] == name);
            }
        }
    }
}

/// The listing by type holds every monitored source under its own type, and no
/// other.
pub proof fn law_sources_are_listed_under_their_type(
    sources: Seq<MonitoredSource>,
    wanted: Seq<char>,
    name: Seq<char>,
)
    ensures
        sources_of(sources, sources.len() as int, wanted).contains(name) <==> exists|i: int|
            0 <= i < sources.len() && (#[trigger] sources[i]).source_type@ == wanted
                && sources[i].identifier@ == name,
{
    lemma_sources(sources, sources.len() as int, wanted, name);
}

} // verus!
