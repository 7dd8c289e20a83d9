//! A page-by-page walk as a state machine: which page it asks for next, which
//! items it hands out to be stored, what it counts, and when it ends.

use vstd::prelude::*;
use crate::calendar::{date_key, Date, MAX_DAY};
use crate::error::Error;
use crate::fetch::issues::{
    issue_page_parsed, parse_issue_page, IssueData, IssuePage, REPOSITORY_ISSUES_QUERY,
};
use crate::fetch::pull_requests::{
    page_parsed, parse_pull_request_page, repository_pull_requests_query, PullRequestData,
    PullRequestPage, RepositoryMetadata, REPOSITORY_QUERY_HEAD, REPOSITORY_QUERY_TAIL,
};
use crate::fetch::user_search::{
    cursor_source_of, parse_user_search_page, search_expression, search_page_parsed,
    user_pull_requests_query, user_search_expression, SearchedPullRequest, UserRole, UserSearchPage,
    SEARCH_QUERY_HEAD, SEARCH_QUERY_TAIL, SEARCH_RESULT_CAP,
};
use crate::ingest::{
    issue_script, only_refuses, patch_path, patch_request, pull_request_script, script_of, Context,
    Ingest, Script,
};
use crate::json::Json;
use crate::number::{decimal, signed_decimal};
use crate::sql::{commands, single, Batch, Command, Statement};
use crate::storage::repository::{repository_command, upsert_repository};
use crate::storage::sync_state_repository::{failures, Window};
use crate::sync::{
    are_month_windows, can_split, cap_text, count_after, date_windows, failures_after, first_page,
    follows, issue_item_id, issue_updates, law_a_page_is_cut_once, law_halves_partition_the_window,
    law_month_windows_partition, mark_after, mark_with, midpoint, month_windows, opt_window,
    progress_command, pull_request_key, pull_request_updates, result_updates, shortfall_note,
    shortfall_text, smaller_page, takes, with_cursor, FirstPage, Mark, Outcome, SyncOptions,
    SyncSummary, Tally, Walk, Watermark, MAX_WINDOW_SPLIT_DEPTH, REPOSITORY_PAGE_SIZE,
    SEARCH_PAGE_SIZE,
};
use crate::text::{as_slice, copy, copy_opt, lower, lowercase, opt_str, opt_text};

verus! {

// ---------------------------------------------------------------- jobs

/// One item of a page, ready to be stored.
#[derive(Debug)]
pub struct Job {
    /// The id under which the item is reported.
    pub item_id: String,
    /// When the item was updated.
    pub updated: Option<String>,
    /// What must be in place first: its failure ends the walk.
    pub setup: Vec<Statement>,
    /// What stores the item: its failure is the item's alone.
    pub batch: Batch,
    /// The REST call for the patches of the item, once it is stored.
    pub patches: Option<String>,
}

/// The model of a job.
#[verifier::ext_equal]
pub ghost struct Task {
    pub item_id: Seq<char>,
    pub updated: Option<Seq<char>>,
    pub setup: Seq<Command>,
    pub script: Script,
    /// The script is all that there is to the batch.
    pub is_script: bool,
    pub patches: Option<Seq<char>>,
}

impl View for Job {
    type V = Task;

    open spec fn view(&self) -> Task {
        Task {
            item_id: self.item_id@,
            updated: opt_text(self.updated),
            setup: commands(self.setup@),
            script: script_of(self.batch),
            is_script: only_refuses(self.batch),
            patches: opt_text(self.patches),
        }
    }
}

/// The command that stores what is known of a repository.
pub open spec fn metadata_command(repository: RepositoryMetadata) -> Command {
    repository_command(
        lowercase(repository.name_with_owner@),
        opt_text(repository.primary_language),
        repository.is_fork,
        repository.is_private,
        opt_text(repository.default_branch),
        opt_text(repository.created_at),
    )
}

/// Store what is known of a repository, and give its key.
fn store_repository(repository: &RepositoryMetadata) -> (stored: (String, Statement))
    ensures
        stored.0@ == lowercase(repository.name_with_owner@),
        stored.1@ == metadata_command(*repository),
{
    upsert_repository(
        repository.name_with_owner.as_str(),
        as_slice(&repository.primary_language),
        repository.is_fork,
        repository.is_private,
        as_slice(&repository.default_branch),
        as_slice(&repository.created_at),
    )
}

/// The key of a pull request.
pub open spec fn key_of(repo_key: Seq<char>, number: int) -> Seq<char> {
    repo_key + "#"@ + signed_decimal(number)
}

/// The task of a pull request.
#[verifier::opaque]
pub open spec fn pull_request_task(
    pull_request: PullRequestData,
    repo_key: Seq<char>,
    setup: Seq<Command>,
    context: Context,
    skip_diffs: bool,
) -> Task {
    let pr_key = key_of(repo_key, pull_request.number as int);
    Task {
        item_id: pr_key,
        updated: opt_text(pull_request.updated_at),
        setup,
        script: pull_request_script(pull_request, repo_key, pr_key, context),
        is_script: true,
        patches: if skip_diffs || pull_request.files@.len() == 0 {
            None
        } else {
            Some(patch_path(repo_key, pull_request.number as int))
        },
    }
}

/// The job of a pull request.
fn pull_request_job(
    ingest: &Ingest,
    pull_request: &PullRequestData,
    repo_key: &str,
    setup: Vec<Statement>,
    skip_diffs: bool,
) -> (job: Job)
    ensures
        job@ == pull_request_task(
            *pull_request,
            repo_key@,
            commands(setup@),
            ingest@,
            skip_diffs,
        ),
{
    reveal(pull_request_task);
    let pr_key = pull_request_key(repo_key, pull_request.number);
    let batch = ingest.upsert_one_pull_request(repo_key, &pr_key, pull_request);
    Job {
        item_id: pr_key,
        updated: copy_opt(as_slice(&pull_request.updated_at)),
        setup,
        batch,
        patches: patch_request(skip_diffs, repo_key, pull_request),
    }
}

/// The task of an issue.
#[verifier::opaque]
pub open spec fn issue_task(issue: IssueData, repo_key: Seq<char>, context: Context) -> Task {
    Task {
        item_id: repo_key + "#issue-"@ + signed_decimal(issue.number as int),
        updated: Some(issue.updated_at@),
        setup: Seq::empty(),
        script: issue_script(issue, repo_key, context),
        is_script: true,
        patches: None,
    }
}

/// The job of an issue.
fn issue_job(ingest: &Ingest, issue: &IssueData, repo_key: &str) -> (job: Job)
    ensures
        job@ == issue_task(*issue, repo_key@, ingest@),
{
    reveal(issue_task);
    let setup: Vec<Statement> = Vec::new();
    assert(commands(setup@) =~= Seq::empty());
    Job {
        item_id: issue_item_id(repo_key, issue.number),
        updated: Some(copy(issue.updated_at.as_str())),
        setup,
        batch: ingest.upsert_one_issue(repo_key, issue),
        patches: None,
    }
}

/// The task of a search result: its repository comes first.
#[verifier::opaque]
pub open spec fn result_task(item: SearchedPullRequest, context: Context, skip_diffs: bool) -> Task {
    pull_request_task(
        item.pull_request,
        lowercase(item.repository.name_with_owner@),
        seq![metadata_command(item.repository)],
        context,
        skip_diffs,
    )
}

/// The job of a search result.
fn result_job(ingest: &Ingest, item: &SearchedPullRequest, skip_diffs: bool) -> (job: Job)
    ensures
        job@ == result_task(*item, ingest@, skip_diffs),
{
    reveal(result_task);
    let (repo_key, statement) = store_repository(&item.repository);
    pull_request_job(ingest, &item.pull_request, &repo_key, single(statement), skip_diffs)
}

/// The tasks of jobs that are kept last first.
pub open spec fn upcoming(jobs: Seq<Job>) -> Seq<Task> {
    Seq::new(jobs.len(), |i: int| jobs[jobs.len() - 1 - i]@)
}

/// The tasks of the first `n` pull requests of a page.
pub open spec fn pull_request_tasks(
    items: Seq<PullRequestData>,
    n: int,
    repo_key: Seq<char>,
    context: Context,
    skip_diffs: bool,
) -> Seq<Task> {
    Seq::new(
        n as nat,
        |i: int| pull_request_task(items[i], repo_key, Seq::empty(), context, skip_diffs),
    )
}

fn pull_request_jobs(
    ingest: &Ingest,
    items: &Vec<PullRequestData>,
    n: usize,
    repo_key: &str,
    skip_diffs: bool,
) -> (jobs: Vec<Job>)
    requires
        n <= items@.len(),
    ensures
        upcoming(jobs@) == pull_request_tasks(items@, n as int, repo_key@, ingest@, skip_diffs),
{
    let mut jobs: Vec<Job> = Vec::new();
    let mut left: usize = n;
    let ghost tasks = pull_request_tasks(items@, n as int, repo_key@, ingest@, skip_diffs);
    assert(upcoming(jobs@) =~= tasks.skip(n as int));
    while left > 0
        invariant
            left <= n <= items@.len(),
            tasks == pull_request_tasks(items@, n as int, repo_key@, ingest@, skip_diffs),
            upcoming(jobs@) == tasks.skip(left as int),
        decreases left,
    {
        left = left - 1;
        let setup: Vec<Statement> = Vec::new();
        assert(commands(setup@) =~= Seq::empty());
        let ghost before = jobs@;
        jobs.push(pull_request_job(ingest, &items[left], repo_key, setup, skip_diffs));
        proof {
            lemma_upcoming_step(before, jobs@.last(), tasks, left as int);
        }
    }
    assert(tasks.skip(0) =~= tasks);
    jobs
}

/// The tasks of the first `n` issues of a page.
pub open spec fn issue_tasks(
    items: Seq<IssueData>,
    n: int,
    repo_key: Seq<char>,
    context: Context,
) -> Seq<Task> {
    Seq::new(n as nat, |i: int| issue_task(items[i], repo_key, context))
}

fn issue_jobs(ingest: &Ingest, items: &Vec<IssueData>, n: usize, repo_key: &str) -> (jobs: Vec<Job>)
    requires
        n <= items@.len(),
    ensures
        upcoming(jobs@) == issue_tasks(items@, n as int, repo_key@, ingest@),
{
    let mut jobs: Vec<Job> = Vec::new();
    let mut left: usize = n;
    let ghost tasks = issue_tasks(items@, n as int, repo_key@, ingest@);
    assert(upcoming(jobs@) =~= tasks.skip(n as int));
    while left > 0
        invariant
            left <= n <= items@.len(),
            tasks == issue_tasks(items@, n as int, repo_key@, ingest@),
            upcoming(jobs@) == tasks.skip(left as int),
        decreases left,
    {
        left = left - 1;
        let ghost before = jobs@;
        jobs.push(issue_job(ingest, &items[left], repo_key));
        proof {
            lemma_upcoming_step(before, jobs@.last(), tasks, left as int);
        }
    }
    assert(tasks.skip(0) =~= tasks);
    jobs
}

/// The tasks of the first `n` search results of a page.
pub open spec fn result_tasks(
    items: Seq<SearchedPullRequest>,
    n: int,
    context: Context,
    skip_diffs: bool,
) -> Seq<Task> {
    Seq::new(n as nat, |i: int| result_task(items[i], context, skip_diffs))
}

fn result_jobs(
    ingest: &Ingest,
    items: &Vec<SearchedPullRequest>,
    n: usize,
    skip_diffs: bool,
) -> (jobs: Vec<Job>)
    requires
        n <= items@.len(),
    ensures
        upcoming(jobs@) == result_tasks(items@, n as int, ingest@, skip_diffs),
{
    let mut jobs: Vec<Job> = Vec::new();
    let mut left: usize = n;
    let ghost tasks = result_tasks(items@, n as int, ingest@, skip_diffs);
    assert(upcoming(jobs@) =~= tasks.skip(n as int));
    while left > 0
        invariant
            left <= n <= items@.len(),
            tasks == result_tasks(items@, n as int, ingest@, skip_diffs),
            upcoming(jobs@) == tasks.skip(left as int),
        decreases left,
    {
        left = left - 1;
        let ghost before = jobs@;
        jobs.push(result_job(ingest, &items[left], skip_diffs));
        proof {
            lemma_upcoming_step(before, jobs@.last(), tasks, left as int);
        }
    }
    assert(tasks.skip(0) =~= tasks);
    jobs
}

/// A job on top of the others comes before them.
proof fn lemma_upcoming_step(jobs: Seq<Job>, job: Job, tasks: Seq<Task>, left: int)
    requires
        0 <= left < tasks.len(),
        upcoming(jobs) == tasks.skip(left + 1),
        job@ == tasks[left],
    ensures
        upcoming(jobs.push(job)) == tasks.skip(left),
{
    let pushed = jobs.push(job);
    assert(upcoming(jobs).len() == tasks.len() - left - 1);
    assert forall|i: int| 0 <= i < pushed.len() implies #[trigger] upcoming(pushed)[i]
        == tasks.skip(left)[i] by {
        if i > 0 {
            assert(upcoming(jobs)[i - 1] == tasks.skip(left + 1)[i - 1]);
        }
    }
    assert(upcoming(pushed) =~= tasks.skip(left));
}

// ---------------------------------------------------------------- the walk

/// What a walk goes over.
#[derive(Debug)]
pub enum Target {
    /// The pull requests of a repository.
    PullRequests { owner: String, name: String },
    /// The issues of a repository.
    Issues { owner: String, name: String, repository: String },
    /// The pull requests of a user in one role.
    Search { login: String, role: UserRole },
}

/// The model of what a walk goes over.
pub ghost enum Goal {
    PullRequests { owner: Seq<char>, name: Seq<char> },
    Issues { owner: Seq<char>, name: Seq<char>, repository: Seq<char> },
    Search { login: Seq<char>, role: UserRole },
}

impl View for Target {
    type V = Goal;

    open spec fn view(&self) -> Goal {
        match *self {
            Target::PullRequests { owner, name } => Goal::PullRequests {
                owner: owner@,
                name: name@,
            },
            Target::Issues { owner, name, repository } => Goal::Issues {
                owner: owner@,
                name: name@,
                repository: repository@,
            },
            Target::Search { login, role } => Goal::Search { login: login@, role },
        }
    }
}

/// A walk over the pages of one source.
#[derive(Debug)]
pub struct PageWalk {
    pub target: Target,
    /// The key of the lock under which the progress is reported.
    pub entity_key: String,
    pub ingest: Ingest,
    pub skip_diffs: bool,
    pub summary: SyncSummary,
    pub mark: Watermark,
    pub walk: Walk,
    /// The days that are being searched, where the search is windowed.
    pub window: Option<(Date, Date)>,
    /// How often the window was cut.
    pub depth: u32,
    /// The match count that the first page of the search reported.
    pub total: Option<i64>,
    /// The windows still to search and how often each was cut, last first.
    pub pending: Vec<((Date, Date), u32)>,
    /// The items of the page still to store, last first.
    pub jobs: Vec<Job>,
    /// The item that is being stored, and when it was updated.
    pub storing: Option<(String, Option<String>)>,
    /// The page holds an item past the stop.
    pub cut: bool,
    /// Where the next page starts, if there is one to go on to.
    pub next: Option<String>,
}

/// Where a walk stands.
#[verifier::ext_equal]
pub ghost struct Stand {
    pub goal: Goal,
    pub entity_key: Seq<char>,
    pub context: Context,
    pub skip_diffs: bool,
    pub tally: Tally,
    pub mark: Mark,
    pub stop: Option<Seq<char>>,
    pub page_cursor: Option<Seq<char>>,
    pub page_size: u32,
    pub item_index: int,
    pub window: Option<Window>,
    pub depth: int,
    pub total: Option<int>,
    pub pending: Seq<(Window, int)>,
    pub tasks: Seq<Task>,
    pub storing: Option<(Seq<char>, Option<Seq<char>>)>,
    pub cut: bool,
    pub next: Option<Seq<char>>,
}

/// The windows to come, of a list that is kept last first.
pub open spec fn windows_ahead(pending: Seq<((Date, Date), u32)>) -> Seq<(Window, int)> {
    Seq::new(
        pending.len(),
        |i: int|
            {
                let item = pending[pending.len() - 1 - i];
                (Window { start: item.0.0@, end: item.0.1@ }, item.1 as int)
            },
    )
}

/// A match count, where there is one.
pub open spec fn opt_count(count: Option<i64>) -> Option<int> {
    match count {
        Some(count) => Some(count as int),
        None => None,
    }
}

/// The item that is being stored.
pub open spec fn opt_item(item: Option<(String, Option<String>)>) -> Option<
    (Seq<char>, Option<Seq<char>>),
> {
    match item {
        Some((item_id, updated)) => Some((item_id@, opt_text(updated))),
        None => None,
    }
}

impl View for PageWalk {
    type V = Stand;

    open spec fn view(&self) -> Stand {
        Stand {
            goal: self.target@,
            entity_key: self.entity_key@,
            context: self.ingest@,
            skip_diffs: self.skip_diffs,
            tally: self.summary@,
            mark: self.mark@,
            stop: opt_text(self.walk.stop),
            page_cursor: opt_text(self.walk.page_cursor),
            page_size: self.walk.page_size,
            item_index: self.walk.item_index as int,
            window: opt_window(self.window),
            depth: self.depth as int,
            total: opt_count(self.total),
            pending: windows_ahead(self.pending@),
            tasks: upcoming(self.jobs@),
            storing: opt_item(self.storing),
            cut: self.cut,
            next: opt_text(self.next),
        }
    }
}

/// A page to ask for.
#[derive(Debug)]
pub struct Request {
    pub query: String,
    pub variables: Vec<(String, String)>,
    /// The request goes to the search endpoint, which has a pace of its own.
    pub is_search: bool,
}

/// The model of a request.
#[verifier::ext_equal]
pub ghost struct Ask {
    pub query: Seq<char>,
    pub variables: Seq<(Seq<char>, Seq<char>)>,
    pub is_search: bool,
}

impl View for Request {
    type V = Ask;

    open spec fn view(&self) -> Ask {
        Ask {
            query: self.query@,
            variables: failures(self.variables@),
            is_search: self.is_search,
        }
    }
}

/// What to do next for a walk.
#[derive(Debug)]
pub enum Action {
    /// Fetch a page, and report with `fetched` or `fetch_failed`.
    Fetch(Request),
    /// Store an item, and report with `stored`.
    Store(Job),
    /// Nothing: the walk is complete.
    Finished,
    /// Nothing: the walk cannot go on.
    Failed(Error),
}

/// The model of what to do next.
pub ghost enum Deed {
    Fetch(Ask),
    Store(Task),
    Finished,
    Failed(Error),
}

impl View for Action {
    type V = Deed;

    open spec fn view(&self) -> Deed {
        match *self {
            Action::Fetch(request) => Deed::Fetch(request@),
            Action::Store(job) => Deed::Store(job@),
            Action::Finished => Deed::Finished,
            Action::Failed(error) => Deed::Failed(error),
        }
    }
}

/// Statements to run, and what to do after them.
#[derive(Debug)]
pub struct Turn {
    pub statements: Vec<Statement>,
    pub action: Action,
}

/// The model of a turn.
#[verifier::ext_equal]
pub ghost struct Move {
    pub commands: Seq<Command>,
    pub deed: Deed,
}

impl View for Turn {
    type V = Move;

    open spec fn view(&self) -> Move {
        Move { commands: commands(self.statements@), deed: self.action@ }
    }
}

/// A turn without statements.
fn only(action: Action) -> (turn: Turn)
    ensures
        turn@ == (Move { commands: Seq::empty(), deed: action@ }),
{
    let turn = Turn { statements: Vec::new(), action };
    assert(turn@ =~= (Move { commands: Seq::empty(), deed: action@ }));
    turn
}

// ---------------------------------------------------------------- requests

/// The keys of a window's days.
pub open spec fn window_keys(window: Option<Window>) -> Option<(Seq<char>, Seq<char>)> {
    match window {
        Some(window) => Some((date_key(window.start), date_key(window.end))),
        None => None,
    }
}

/// What a search asks for.
pub open spec fn expression_of(stand: Stand, login: Seq<char>, role: UserRole) -> Seq<char> {
    search_expression(login, role, window_keys(stand.window))
}

/// The page that a walk asks for.
pub open spec fn ask_of(stand: Stand) -> Ask {
    match stand.goal {
        Goal::PullRequests { owner, name } => Ask {
            query: REPOSITORY_QUERY_HEAD@ + decimal(stand.page_size as nat)
                + REPOSITORY_QUERY_TAIL@,
            variables: with_cursor(
                seq![("owner"@, owner), ("name"@, name)],
                stand.page_cursor,
            ),
            is_search: false,
        },
        Goal::Issues { owner, name, .. } => Ask {
            query: REPOSITORY_ISSUES_QUERY@,
            variables: with_cursor(
                seq![("owner"@, owner), ("name"@, name)],
                stand.page_cursor,
            ),
            is_search: false,
        },
        Goal::Search { login, role } => Ask {
            query: SEARCH_QUERY_HEAD@ + decimal(stand.page_size as nat) + SEARCH_QUERY_TAIL@,
            variables: with_cursor(
                seq![("q"@, expression_of(stand, login, role))],
                stand.page_cursor,
            ),
            is_search: true,
        },
    }
}

// ---------------------------------------------------------------- moves

/// The walk takes up the next window, if there is one.
pub open spec fn next_window(stand: Stand) -> (Stand, Deed) {
    if stand.pending.len() == 0 {
        (stand, Deed::Finished)
    } else {
        let opened = Stand {
            window: Some(stand.pending[0].0),
            depth: stand.pending[0].1,
            total: None,
            pending: stand.pending.skip(1),
            page_cursor: None,
            page_size: SEARCH_PAGE_SIZE,
            item_index: 0,
            ..stand
        };
        (opened, Deed::Fetch(ask_of(opened)))
    }
}

/// The search ran out of results in front of its stop.
pub open spec fn falls_short(stand: Stand) -> bool {
    stand.stop is Some && !stand.cut && stand.total is Some && stand.total->Some_0
        > SEARCH_RESULT_CAP
}

/// The tally with one more note.
pub open spec fn noted(tally: Tally, note: Seq<char>) -> Tally {
    Tally { notes: tally.notes.push(note), ..tally }
}

/// The walk is through with its pages.
pub open spec fn wound_up(stand: Stand) -> (Stand, Deed) {
    match stand.goal {
        Goal::PullRequests { .. } => (
            if stand.cut {
                Stand {
                    tally: Tally { up_to_date: stand.tally.pull_requests == 0, ..stand.tally },
                    ..stand
                }
            } else {
                stand
            },
            Deed::Finished,
        ),
        Goal::Issues { .. } => (stand, Deed::Finished),
        Goal::Search { login, role } => next_window(
            if falls_short(stand) {
                Stand {
                    tally: noted(
                        stand.tally,
                        shortfall_text(login, role, stand.total->Some_0),
                    ),
                    ..stand
                }
            } else {
                stand
            },
        ),
    }
}

/// The walk goes on: to the next item of the page, else to the next page, else
/// to its end.
pub open spec fn onward(stand: Stand) -> (Stand, Deed) {
    if stand.tasks.len() > 0 {
        (
            Stand {
                storing: Some((stand.tasks[0].item_id, stand.tasks[0].updated)),
                tasks: stand.tasks.skip(1),
                ..stand
            },
            Deed::Store(stand.tasks[0]),
        )
    } else {
        let rested = Stand { storing: None, ..stand };
        if !stand.cut && stand.next is Some {
            let turned = Stand { page_cursor: stand.next, ..rested };
            (turned, Deed::Fetch(ask_of(turned)))
        } else {
            wound_up(rested)
        }
    }
}

/// How many items of a page to take: those in front of the first one that is
/// past the stop.
pub open spec fn taken(stop: Option<Seq<char>>, updates: Seq<Option<Seq<char>>>) -> int {
    choose|n: int| takes(stop, updates, n)
}

proof fn lemma_taken(stop: Option<Seq<char>>, updates: Seq<Option<Seq<char>>>, n: int)
    requires
        takes(stop, updates, n),
    ensures
        taken(stop, updates) == n,
{
    law_a_page_is_cut_once(stop, updates, n, taken(stop, updates));
}

/// Where the next page starts: the page says that there is one, it held
/// something, and it says where.
pub open spec fn next_page(
    has_next_page: bool,
    is_empty: bool,
    end_cursor: Option<Seq<char>>,
) -> Option<Seq<char>> {
    if has_next_page && !is_empty {
        end_cursor
    } else {
        None
    }
}

/// Where the next page starts, if there is one to go on to.
fn following(has_next_page: bool, is_empty: bool, end_cursor: &Option<String>) -> (next: Option<
    String,
>)
    ensures
        opt_text(next) == next_page(has_next_page, is_empty, opt_text(*end_cursor)),
{
    if has_next_page && !is_empty {
        copy_opt(as_slice(end_cursor))
    } else {
        None
    }
}

/// The tally with one more page.
pub open spec fn one_page(tally: Tally) -> Tally {
    Tally { pages: tally.pages + 1, ..tally }
}

/// The walk has a page of pull requests in front of it.
pub open spec fn with_pull_requests(stand: Stand, page: PullRequestPage) -> Stand {
    let items = page.pull_requests@;
    let n = taken(stand.stop, pull_request_updates(items));
    Stand {
        tally: one_page(stand.tally),
        tasks: pull_request_tasks(
            items,
            n,
            lowercase(page.repository.name_with_owner@),
            stand.context,
            stand.skip_diffs,
        ),
        cut: n < items.len(),
        next: next_page(page.has_next_page, items.len() == 0, opt_text(page.end_cursor)),
        ..stand
    }
}

/// The walk has a page of issues in front of it.
pub open spec fn with_issues(stand: Stand, page: IssuePage, repo_key: Seq<char>) -> Stand {
    let items = page.issues@;
    let n = taken(stand.stop, issue_updates(items));
    Stand {
        tally: one_page(stand.tally),
        tasks: issue_tasks(items, n, repo_key, stand.context),
        cut: n < items.len(),
        next: next_page(page.has_next_page, items.len() == 0, opt_text(page.end_cursor)),
        ..stand
    }
}

/// The first page of the search reports more matches than will be served, and
/// no stop bounds the search.
pub open spec fn overflows(stand: Stand, total: int) -> bool {
    stand.total is None && stand.stop is None && total > SEARCH_RESULT_CAP
}

/// The walk searches the two halves of its window instead.
pub open spec fn halved(stand: Stand, total: int) -> Stand {
    let window = stand.window->Some_0;
    let middle = midpoint(window.start, window.end);
    Stand {
        tally: one_page(stand.tally),
        total: Some(total),
        pending: seq![
            (Window { start: window.start, end: middle }, stand.depth + 1),
            (Window { start: middle + 1, end: window.end }, stand.depth + 1),
        ] + stand.pending,
        ..stand
    }
}

/// The walk has a page of search results in front of it.
pub open spec fn with_results(
    stand: Stand,
    page: UserSearchPage,
    login: Seq<char>,
    role: UserRole,
) -> Stand {
    let items = page.items@;
    let n = taken(stand.stop, result_updates(items));
    let counted = one_page(stand.tally);
    Stand {
        tally: if overflows(stand, page.total_count as int) {
            noted(
                counted,
                cap_text(
                    login,
                    role,
                    expression_of(stand, login, role),
                    page.total_count as int,
                ),
            )
        } else {
            counted
        },
        total: if stand.total is None {
            Some(page.total_count as int)
        } else {
            stand.total
        },
        tasks: result_tasks(items, n, stand.context, stand.skip_diffs),
        cut: n < items.len(),
        next: next_page(page.has_next_page, items.len() == 0, opt_text(page.end_cursor)),
        ..stand
    }
}

/// The walk took up a page of search results.
pub open spec fn searched(
    stand: Stand,
    page: UserSearchPage,
    login: Seq<char>,
    role: UserRole,
) -> (Stand, Deed) {
    let total = page.total_count as int;
    if overflows(stand, total) && can_split(stand.window, stand.depth) {
        next_window(halved(stand, total))
    } else {
        onward(with_results(stand, page, login, role))
    }
}

/// The walk came by these commands from one stand to another.
pub open spec fn moves_to(after: Stand, turn: Move, commands: Seq<Command>, to: (Stand, Deed)) -> bool {
    after == to.0 && turn == (Move { commands, deed: to.1 })
}

/// The walk cannot go on, and stands where it stood.
pub open spec fn gives_up(before: Stand, after: Stand, turn: Move, error: Error) -> bool {
    moves_to(after, turn, Seq::empty(), (before, Deed::Failed(error)))
}

/// The walk received the `data` of a page.
pub open spec fn receives(before: Stand, data: Json, after: Stand, turn: Move) -> bool {
    match before.goal {
        Goal::PullRequests { .. } => exists|outcome: Result<PullRequestPage, Error>| #[trigger]
            page_parsed(outcome, data) && match outcome {
                Ok(page) => moves_to(
                    after,
                    turn,
                    seq![metadata_command(page.repository)],
                    onward(with_pull_requests(before, page)),
                ),
                Err(error) => gives_up(before, after, turn, error),
            },
        Goal::Issues { repository, .. } => exists|outcome: Result<IssuePage, Error>| #[trigger]
            issue_page_parsed(outcome, data) && match outcome {
                Ok(page) => moves_to(
                    after,
                    turn,
                    Seq::empty(),
                    onward(with_issues(before, page, lowercase(repository))),
                ),
                Err(error) => gives_up(before, after, turn, error),
            },
        Goal::Search { login, role } => exists|outcome: Result<UserSearchPage, Error>| #[trigger]
            search_page_parsed(outcome, data) && match outcome {
                Ok(page) => moves_to(
                    after,
                    turn,
                    Seq::empty(),
                    searched(before, page, login, role),
                ),
                Err(error) => gives_up(before, after, turn, error),
            },
    }
}

/// A fetch failed: the walk asks for the same page at half its size, as long as
/// there is a size.
pub open spec fn degraded(stand: Stand, error: Error) -> (Stand, Deed) {
    if stand.goal is Issues || stand.page_size <= 1 {
        (stand, Deed::Failed(error))
    } else {
        let smaller = Stand { page_size: smaller_page(stand.page_size), ..stand };
        (smaller, Deed::Fetch(ask_of(smaller)))
    }
}

/// The tally after an item was stored, or failed.
pub open spec fn counted(
    goal: Goal,
    tally: Tally,
    item_id: Seq<char>,
    failure: Option<Seq<char>>,
) -> Tally {
    Tally {
        pull_requests: if goal is Issues {
            tally.pull_requests
        } else {
            count_after(tally.pull_requests, failure)
        },
        issues: if goal is Issues {
            count_after(tally.issues, failure)
        } else {
            tally.issues
        },
        failed: failures_after(tally.failed, item_id, failure),
        ..tally
    }
}

/// The walk after an item was stored, or failed.
pub open spec fn after_item(stand: Stand, failure: Option<Seq<char>>) -> Stand {
    let item = stand.storing->Some_0;
    Stand {
        tally: counted(stand.goal, stand.tally, item.0, failure),
        mark: mark_with(stand.mark, item.1, failure),
        item_index: if stand.goal is Search {
            stand.item_index
        } else {
            stand.item_index + 1
        },
        ..stand
    }
}

/// The command that reports the progress of a walk whose last item was the
/// given one.
pub open spec fn report(stand: Stand, item_id: Seq<char>) -> Command {
    let tally = stand.tally;
    progress_command(
        stand.entity_key,
        if stand.goal is Search {
            tally.pull_requests + tally.failed.len()
        } else {
            stand.item_index
        },
        item_id,
        if stand.goal is Issues {
            tally.pull_requests + tally.issues
        } else {
            tally.pull_requests
        },
        tally.skipped,
        tally.failed.len() as int,
    )
}

/// What is run before the first page.
pub open spec fn opening_commands(goal: Goal) -> Seq<Command> {
    match goal {
        Goal::Issues { repository, .. } => seq![
            repository_command(lowercase(repository), None, false, false, None, None),
        ],
        _ => Seq::empty(),
    }
}

/// The walk asks for its first page. A search without a stop goes by windows.
pub open spec fn opening(stand: Stand) -> (Stand, Deed) {
    if stand.goal is Search && stand.stop is None {
        next_window(stand)
    } else {
        (stand, Deed::Fetch(ask_of(stand)))
    }
}

/// The counts of a walk leave room for one more page and one more item.
pub open spec fn has_room(stand: Stand) -> bool {
    &&& 0 <= stand.tally.pull_requests
    &&& 0 <= stand.tally.issues
    &&& stand.tally.pull_requests + stand.tally.issues + stand.tally.failed.len() < i64::MAX
    &&& stand.tally.pages < i64::MAX
    &&& stand.item_index < i64::MAX
}

/// A walk that has not begun.
pub open spec fn fresh(
    goal: Goal,
    entity_key: Seq<char>,
    context: Context,
    skip_diffs: bool,
    tally: Tally,
    cursor: Option<Seq<char>>,
    stop: Option<Seq<char>>,
    page_size: u32,
    pending: Seq<(Window, int)>,
) -> Stand {
    Stand {
        goal,
        entity_key,
        context,
        skip_diffs,
        tally,
        mark: Mark { newest: cursor, oldest_failed: None },
        stop,
        page_cursor: None,
        page_size,
        item_index: 0,
        window: None,
        depth: 0,
        total: None,
        pending,
        tasks: Seq::empty(),
        storing: None,
        cut: false,
        next: None,
    }
}

/// The windows of a list of windows to come.
pub open spec fn windows_in(pending: Seq<(Window, int)>) -> Seq<Window> {
    Seq::new(pending.len(), |i: int| pending[i].0)
}

/// The windows to come are the months from `start` to `end`, none of them cut.
pub open spec fn are_months_ahead(pending: Seq<(Window, int)>, start: int, end: int) -> bool {
    &&& forall|i: int| 0 <= i < pending.len() ==> (#[trigger] pending[i]).1 == 0
    &&& if start > end {
        pending.len() == 0
    } else {
        are_month_windows(windows_in(pending), start, end)
    }
}

/// The months from `start` to `end`, as windows to come.
pub open spec fn months_ahead(start: int, end: int) -> Seq<(Window, int)> {
    choose|pending: Seq<(Window, int)>| are_months_ahead(pending, start, end)
}

/// The first windows of two partitions into months are the same.
proof fn lemma_months_agree(left: Seq<Window>, right: Seq<Window>, start: int, end: int, n: int)
    requires
        are_month_windows(left, start, end),
        are_month_windows(right, start, end),
        0 <= n < left.len(),
    ensures
        n < right.len(),
        left[n] == right[n],
    decreases n,
{
    if n > 0 {
        lemma_months_agree(left, right, start, end, n - 1);
        assert(follows(left, n - 1));
        if n == right.len() {
            assert(right.last() == left[n - 1]);
            assert(left[n].start <= left[n].end && left[n].end <= end);
        }
        assert(follows(right, n - 1));
    }
}

/// The months from `start` to `end` are determined.
proof fn lemma_months_ahead(pending: Seq<(Window, int)>, start: int, end: int)
    requires
        are_months_ahead(pending, start, end),
    ensures
        months_ahead(start, end) == pending,
{
    let chosen = months_ahead(start, end);
    if start <= end {
        let left = windows_in(pending);
        let right = windows_in(chosen);
        lemma_months_agree(left, right, start, end, left.len() - 1);
        lemma_months_agree(right, left, start, end, right.len() - 1);
        assert forall|i: int| 0 <= i < pending.len() implies pending[i] == chosen[i] by {
            lemma_months_agree(left, right, start, end, i);
            assert(left[i] == pending[i].0 && right[i] == chosen[i].0);
        }
    }
    assert(chosen =~= pending);
}

/// The windows, last first and none of them cut.
fn stack_windows(windows: Vec<(Date, Date)>) -> (pending: Vec<((Date, Date), u32)>)
    ensures
        windows_in(windows_ahead(pending@)) == date_windows(windows@),
        forall|i: int|
            0 <= i < pending@.len() ==> (#[trigger] windows_ahead(pending@)[i]).1 == 0,
        pending@.len() == windows@.len(),
{
    let mut pending: Vec<((Date, Date), u32)> = Vec::new();
    let mut left: usize = windows.len();
    while left > 0
        invariant
            left <= windows@.len(),
            pending@.len() == windows@.len() - left,
            forall|i: int|
                0 <= i < pending@.len() ==> (#[trigger] pending@[i]).0 == windows@[windows@.len() - 1
                    - i] && pending@[i].1 == 0,
        decreases left,
    {
        left = left - 1;
        pending.push((windows[left], 0));
    }
    proof {
        let ahead = windows_ahead(pending@);
        assert forall|i: int| 0 <= i < ahead.len() implies windows_in(ahead)[i] == date_windows(
            windows@,
        )[i] by {
            assert(pending@[pending@.len() - 1 - i].0 == windows@[i]);
        }
        assert(windows_in(ahead) =~= date_windows(windows@));
    }
    pending
}

impl PageWalk {
    fn new(
        target: Target,
        entity_key: &str,
        ingest: Ingest,
        skip_diffs: bool,
        summary: SyncSummary,
        cursor: Option<&str>,
        walk: Walk,
        pending: Vec<((Date, Date), u32)>,
    ) -> (page_walk: PageWalk)
        requires
            walk.page_cursor is None,
            walk.item_index == 0,
        ensures
            page_walk@ == fresh(
                target@,
                entity_key@,
                ingest@,
                skip_diffs,
                summary@,
                opt_str(cursor),
                opt_text(walk.stop),
                walk.page_size,
                windows_ahead(pending@),
            ),
    {
        let page_walk = PageWalk {
            target,
            entity_key: copy(entity_key),
            ingest,
            skip_diffs,
            summary,
            mark: Watermark::start(cursor),
            walk,
            window: None,
            depth: 0,
            total: None,
            pending,
            jobs: Vec::new(),
            storing: None,
            cut: false,
            next: None,
        };
        assert(upcoming(page_walk.jobs@) =~= Seq::empty());
        page_walk
    }

    /// A walk over the pull requests of a repository, newest first, down to the
    /// cursor of the last run.
    pub fn over_pull_requests(
        owner: &str,
        name: &str,
        entity_key: &str,
        cursor: Option<&str>,
        ingest: Ingest,
        skip_diffs: bool,
        summary: SyncSummary,
    ) -> (page_walk: PageWalk)
        ensures
            page_walk@ == fresh(
                Goal::PullRequests { owner: owner@, name: name@ },
                entity_key@,
                ingest@,
                skip_diffs,
                summary@,
                opt_str(cursor),
                opt_str(cursor),
                REPOSITORY_PAGE_SIZE,
                Seq::empty(),
            ),
    {
        let pending: Vec<((Date, Date), u32)> = Vec::new();
        assert(windows_ahead(pending@) =~= Seq::empty());
        PageWalk::new(
            Target::PullRequests { owner: copy(owner), name: copy(name) },
            entity_key,
            ingest,
            skip_diffs,
            summary,
            cursor,
            Walk::start(cursor, REPOSITORY_PAGE_SIZE),
            pending,
        )
    }

    /// A walk over the issues of a repository, newest first, down to the cursor
    /// of the last run.
    pub fn over_issues(
        owner: &str,
        name: &str,
        repository: &str,
        entity_key: &str,
        cursor: Option<&str>,
        ingest: Ingest,
        summary: SyncSummary,
    ) -> (page_walk: PageWalk)
        ensures
            page_walk@ == fresh(
                Goal::Issues { owner: owner@, name: name@, repository: repository@ },
                entity_key@,
                ingest@,
                true,
                summary@,
                opt_str(cursor),
                opt_str(cursor),
                REPOSITORY_PAGE_SIZE,
                Seq::empty(),
            ),
    {
        let pending: Vec<((Date, Date), u32)> = Vec::new();
        assert(windows_ahead(pending@) =~= Seq::empty());
        PageWalk::new(
            Target::Issues { owner: copy(owner), name: copy(name), repository: copy(repository) },
            entity_key,
            ingest,
            true,
            summary,
            cursor,
            Walk::start(cursor, REPOSITORY_PAGE_SIZE),
            pending,
        )
    }

    /// A walk over the pull requests of a user in one role. An incremental walk
    /// goes down to the cursor of the last run; any other one is a backfill of
    /// the days from `start` to `end`, month by month and without a stop.
    pub fn over_search(
        login: &str,
        role: UserRole,
        entity_key: &str,
        cursor: Option<&str>,
        incremental: bool,
        start: Date,
        end: Date,
        ingest: Ingest,
        skip_diffs: bool,
        summary: SyncSummary,
    ) -> (page_walk: PageWalk)
        requires
            incremental || end@ < MAX_DAY,
        ensures
            page_walk@ == fresh(
                Goal::Search { login: login@, role },
                entity_key@,
                ingest@,
                skip_diffs,
                summary@,
                opt_str(cursor),
                if incremental {
                    opt_str(cursor)
                } else {
                    None
                },
                SEARCH_PAGE_SIZE,
                if incremental {
                    Seq::empty()
                } else {
                    months_ahead(start@, end@)
                },
            ),
            !incremental ==> are_months_ahead(page_walk@.pending, start@, end@),
    {
        let target = Target::Search { login: copy(login), role };
        let (stop, pending) = if incremental {
            (cursor, Vec::new())
        } else {
            (None, stack_windows(month_windows(start, end)))
        };
        proof {
            let ahead = windows_ahead(pending@);
            assert(ahead.len() == windows_in(ahead).len());
            if incremental {
                assert(ahead =~= Seq::empty());
            } else {
                lemma_months_ahead(ahead, start@, end@);
            }
        }
        PageWalk::new(
            target,
            entity_key,
            ingest,
            skip_diffs,
            summary,
            cursor,
            Walk::start(stop, SEARCH_PAGE_SIZE),
            pending,
        )
    }
}

impl PageWalk {
    /// Do the counts leave room for one more page and one more item?
    pub fn can_count(&self) -> (yes: bool)
        ensures
            yes == has_room(self@),
    {
        assert(failures(self.summary.failed@).len() == self.summary.failed@.len());
        0 <= self.summary.pull_requests_synced && 0 <= self.summary.issues_synced
            && (self.summary.pull_requests_synced as i128) + (self.summary.issues_synced as i128) + (
        self.summary.failed.len() as i128) < i64::MAX as i128 && self.summary.pages_fetched
            < i64::MAX && self.walk.item_index < i64::MAX
    }

    /// What the search asks for.
    fn expression(&self, login: &str, role: UserRole) -> (expression: String)
        ensures
            expression@ == expression_of(self@, login@, role),
    {
        match self.window {
            Some((start, end)) => {
                let start_key = start.key();
                let end_key = end.key();
                user_search_expression(login, role, Some((start_key.as_str(), end_key.as_str())))
            },
            None => user_search_expression(login, role, None),
        }
    }

    /// The page to ask for.
    fn request(&self) -> (request: Request)
        ensures
            request@ == ask_of(self@),
    {
        match &self.target {
            Target::PullRequests { owner, name } => Request {
                query: repository_pull_requests_query(self.walk.page_size),
                variables: self.walk.repository_variables(owner.as_str(), name.as_str()),
                is_search: false,
            },
            Target::Issues { owner, name, .. } => Request {
                query: copy(REPOSITORY_ISSUES_QUERY),
                variables: self.walk.repository_variables(owner.as_str(), name.as_str()),
                is_search: false,
            },
            Target::Search { login, role } => Request {
                query: user_pull_requests_query(self.walk.page_size),
                variables: self.walk.search_variables(&self.expression(login.as_str(), *role)),
                is_search: true,
            },
        }
    }

    /// Take up the next window, if there is one.
    fn open_window(&mut self) -> (action: Action)
        ensures
            (final(self)@, action@) == next_window(old(self)@),
    {
        let ghost ahead = windows_ahead(self.pending@);
        match self.pending.pop() {
            None => Action::Finished,
            Some((window, depth)) => {
                assert(windows_ahead(self.pending@) =~= ahead.skip(1));
                self.window = Some(window);
                self.depth = depth;
                self.total = None;
                self.walk.page_cursor = None;
                self.walk.page_size = SEARCH_PAGE_SIZE;
                self.walk.item_index = 0;
                assert(self@ =~= next_window(old(self)@).0);
                Action::Fetch(self.request())
            },
        }
    }

    /// Wind the pages up.
    fn wind_up(&mut self) -> (action: Action)
        ensures
            (final(self)@, action@) == wound_up(old(self)@),
    {
        let note = match &self.target {
            Target::PullRequests { .. } => {
                if self.cut {
                    self.summary.stop_at_cursor();
                    assert(self@ =~= wound_up(old(self)@).0);
                }
                return Action::Finished;
            },
            Target::Issues { .. } => {
                return Action::Finished;
            },
            Target::Search { login, role } => shortfall_note(
                login.as_str(),
                *role,
                self.walk.stop.is_some(),
                self.cut,
                match self.total {
                    Some(total) => total,
                    None => 0,
                },
            ),
        };
        if let Some(note) = note {
            self.summary.note(note);
            proof {
                if let Goal::Search { login, role } = old(self)@.goal {
                    assert(self@ =~= (Stand {
                        tally: noted(
                            old(self)@.tally,
                            shortfall_text(login, role, old(self)@.total->Some_0),
                        ),
                        ..old(self)@
                    }));
                }
            }
        }
        self.open_window()
    }

    /// Go on: to the next item of the page, else to the next page, else to the
    /// end.
    fn go_on(&mut self) -> (action: Action)
        ensures
            (final(self)@, action@) == onward(old(self)@),
    {
        let ghost tasks = upcoming(self.jobs@);
        match self.jobs.pop() {
            Some(job) => {
                assert(upcoming(self.jobs@) =~= tasks.skip(1));
                self.storing = Some((
                    copy(job.item_id.as_str()),
                    copy_opt(as_slice(&job.updated)),
                ));
                assert(self@ =~= onward(old(self)@).0);
                Action::Store(job)
            },
            None => {
                self.storing = None;
                if !self.cut && self.next.is_some() {
                    self.walk.page_cursor = copy_opt(as_slice(&self.next));
                    assert(self@ =~= onward(old(self)@).0);
                    Action::Fetch(self.request())
                } else {
                    assert(self@ =~= (Stand { storing: None, ..old(self)@ }));
                    self.wind_up()
                }
            },
        }
    }

    /// Begin the walk.
    pub fn start(&mut self) -> (turn: Turn)
        ensures
            moves_to(
                final(self)@,
                turn@,
                opening_commands(old(self)@.goal),
                opening(old(self)@),
            ),
    {
        match &self.target {
            Target::PullRequests { .. } => only(Action::Fetch(self.request())),
            Target::Issues { repository, .. } => {
                let (_, statement) = upsert_repository(
                    repository.as_str(),
                    None,
                    false,
                    false,
                    None,
                    None,
                );
                Turn { statements: single(statement), action: Action::Fetch(self.request()) }
            },
            Target::Search { .. } => if self.walk.stop.is_some() {
                only(Action::Fetch(self.request()))
            } else {
                only(self.open_window())
            },
        }
    }

    /// A page arrived: its `data`.
    pub fn fetched(&mut self, data: &Json) -> (turn: Turn)
        requires
            has_room(old(self)@),
        ensures
            receives(old(self)@, *data, final(self)@, turn@),
    {
        match &self.target {
            Target::PullRequests { .. } => match parse_pull_request_page(data) {
                Ok(page) => self.take_pull_requests(page),
                Err(error) => only(Action::Failed(error)),
            },
            Target::Issues { repository, .. } => {
                let repo_key = lower(repository.as_str());
                match parse_issue_page(data) {
                    Ok(page) => self.take_issues(page, &repo_key),
                    Err(error) => only(Action::Failed(error)),
                }
            },
            Target::Search { login, role } => {
                let login = copy(login.as_str());
                let role = *role;
                match parse_user_search_page(data) {
                    Ok(page) => self.take_results(page, &login, role),
                    Err(error) => only(Action::Failed(error)),
                }
            },
        }
    }

    fn take_pull_requests(&mut self, page: PullRequestPage) -> (turn: Turn)
        requires
            has_room(old(self)@),
        ensures
            moves_to(
                final(self)@,
                turn@,
                seq![metadata_command(page.repository)],
                onward(with_pull_requests(old(self)@, page)),
            ),
    {
        self.summary.count_page();
        let (repo_key, statement) = store_repository(&page.repository);
        let n: usize = self.walk.wanted_pull_requests(&page.pull_requests);
        proof {
            lemma_taken(
                opt_text(self.walk.stop),
                pull_request_updates(page.pull_requests@),
                n as int,
            );
        }
        self.jobs = pull_request_jobs(
            &self.ingest,
            &page.pull_requests,
            n,
            &repo_key,
            self.skip_diffs,
        );
        self.cut = n < page.pull_requests.len();
        self.next = following(page.has_next_page, page.pull_requests.len() == 0, &page.end_cursor);
        assert(self@ =~= with_pull_requests(old(self)@, page));
        let action = self.go_on();
        Turn { statements: single(statement), action }
    }

    fn take_issues(&mut self, page: IssuePage, repo_key: &str) -> (turn: Turn)
        requires
            has_room(old(self)@),
        ensures
            moves_to(
                final(self)@,
                turn@,
                Seq::empty(),
                onward(with_issues(old(self)@, page, repo_key@)),
            ),
    {
        self.summary.count_page();
        let n: usize = self.walk.wanted_issues(&page.issues);
        proof {
            lemma_taken(opt_text(self.walk.stop), issue_updates(page.issues@), n as int);
        }
        self.jobs = issue_jobs(&self.ingest, &page.issues, n, repo_key);
        self.cut = n < page.issues.len();
        self.next = following(page.has_next_page, page.issues.len() == 0, &page.end_cursor);
        assert(self@ =~= with_issues(old(self)@, page, repo_key@));
        let action = self.go_on();
        only(action)
    }

    fn take_results(&mut self, page: UserSearchPage, login: &str, role: UserRole) -> (turn: Turn)
        requires
            has_room(old(self)@),
        ensures
            moves_to(
                final(self)@,
                turn@,
                Seq::empty(),
                searched(old(self)@, page, login@, role),
            ),
    {
        let expression = self.expression(login, role);
        self.summary.count_page();
        assert(self@ =~= (Stand { tally: one_page(old(self)@.tally), ..old(self)@ }));
        if self.total.is_none() {
            self.total = Some(page.total_count);
            let decision = first_page(
                login,
                role,
                &expression,
                self.window,
                self.walk.stop.is_some(),
                page.total_count,
                self.depth,
            );
            match decision {
                FirstPage::Proceed => {},
                FirstPage::Split(left, right) => {
                    let ghost ahead = windows_ahead(self.pending@);
                    self.pending.push((right, self.depth + 1));
                    self.pending.push((left, self.depth + 1));
                    proof {
                        let halves = halved(old(self)@, page.total_count as int);
                        assert(windows_ahead(self.pending@) =~= halves.pending);
                        assert(self@ =~= halves);
                    }
                    let action = self.open_window();
                    return only(action);
                },
                FirstPage::Capped(note) => self.summary.note(note),
            }
        }
        let n: usize = self.walk.wanted_results(&page.items);
        proof {
            lemma_taken(opt_text(self.walk.stop), result_updates(page.items@), n as int);
        }
        self.jobs = result_jobs(&self.ingest, &page.items, n, self.skip_diffs);
        self.cut = n < page.items.len();
        self.next = following(page.has_next_page, page.items.len() == 0, &page.end_cursor);
        assert(self@ =~= with_results(old(self)@, page, login@, role));
        let action = self.go_on();
        only(action)
    }

    /// A fetch failed. Heavy pages can overflow GitHub's response stream, so
    /// the walk degrades to a smaller page before it gives up.
    pub fn fetch_failed(&mut self, error: Error) -> (turn: Turn)
        ensures
            moves_to(final(self)@, turn@, Seq::empty(), degraded(old(self)@, error)),
    {
        let is_fixed = match &self.target {
            Target::Issues { .. } => true,
            _ => false,
        };
        if is_fixed || !self.walk.retry_smaller() {
            return only(Action::Failed(error));
        }
        assert(self@ =~= degraded(old(self)@, error).0);
        only(Action::Fetch(self.request()))
    }

    /// The item that was handed out is stored, or failed with a message.
    pub fn stored(&mut self, failure: Option<&str>) -> (turn: Turn)
        requires
            has_room(old(self)@),
            old(self)@.storing is Some,
        ensures
            ({
                let counted = after_item(old(self)@, opt_str(failure));
                moves_to(
                    final(self)@,
                    turn@,
                    seq![report(counted, old(self)@.storing->Some_0.0)],
                    onward(counted),
                )
            }),
    {
        assert(failures(self.summary.failed@).len() == self.summary.failed@.len());
        let (item_id, updated) = match &self.storing {
            Some((item_id, updated)) => (copy(item_id.as_str()), copy_opt(as_slice(updated))),
            None => (String::new(), None),
        };
        let progress = match &self.target {
            Target::PullRequests { .. } => self.summary.record_pull_request(
                &mut self.walk,
                &mut self.mark,
                self.entity_key.as_str(),
                &item_id,
                as_slice(&updated),
                failure,
            ),
            Target::Issues { .. } => self.summary.record_issue(
                &mut self.walk,
                &mut self.mark,
                self.entity_key.as_str(),
                &item_id,
                as_slice(&updated),
                failure,
            ),
            Target::Search { .. } => self.summary.record_result(
                &mut self.mark,
                self.entity_key.as_str(),
                &item_id,
                as_slice(&updated),
                failure,
            ),
        };
        assert(failures(self.summary.failed@).len() == self.summary.failed@.len());
        let ghost counted = after_item(old(self)@, opt_str(failure));
        assert(self@ =~= counted);
        assert(progress@ =~= report(counted, item_id@));
        let action = self.go_on();
        Turn { statements: single(progress), action }
    }
}

// ---------------------------------------------------------------- laws

/// A failed fetch loses nothing: the walk asks for the same page again, only
/// for fewer items of it, and stands where it stood.
pub proof fn law_a_failed_fetch_loses_nothing(stand: Stand, error: Error)
    requires
        !(stand.goal is Issues),
        stand.page_size > 1,
    ensures
        degraded(stand, error).0 == (Stand {
            page_size: degraded(stand, error).0.page_size,
            ..stand
        }),
        1 <= degraded(stand, error).0.page_size < stand.page_size,
        degraded(stand, error).1 matches Deed::Fetch(ask) && ask.variables
            == ask_of(stand).variables && ask.is_search == ask_of(stand).is_search,
{
}

/// Every item that is handed out is counted once: as synced or as failed.
pub proof fn law_every_item_is_counted(stand: Stand, failure: Option<Seq<char>>)
    requires
        stand.storing is Some,
    ensures
        ({
            let before = stand.tally;
            let after = after_item(stand, failure).tally;
            &&& after.pull_requests + after.issues + after.failed.len() == before.pull_requests
                + before.issues + before.failed.len() + 1
            &&& after.failed.len() == before.failed.len() <==> failure is None
        }),
{
}

/// A walk keeps the watermark of all that it stored: where it stood at the
/// watermark of some outcomes, it stands after one more item at the watermark of
/// these and the new one.
pub proof fn law_the_watermark_follows_the_items(
    stand: Stand,
    start: Mark,
    outcomes: Seq<Outcome>,
    failure: Option<Seq<char>>,
)
    requires
        stand.storing is Some,
        stand.mark == mark_after(start, outcomes, outcomes.len() as int),
    ensures
        ({
            let more = outcomes.push(
                Outcome { landed: failure is None, updated: stand.storing->Some_0.1 },
            );
            onward(after_item(stand, failure)).0.mark == mark_after(
                start,
                more,
                more.len() as int,
            )
        }),
{
    let more = outcomes.push(
        Outcome { landed: failure is None, updated: stand.storing->Some_0.1 },
    );
    lemma_mark_of_prefix(start, outcomes, more.last(), outcomes.len() as int);
}

/// The watermark of the first items does not depend on those behind them.
proof fn lemma_mark_of_prefix(start: Mark, outcomes: Seq<Outcome>, last: Outcome, n: int)
    requires
        0 <= n <= outcomes.len(),
    ensures
        mark_after(start, outcomes.push(last), n) == mark_after(start, outcomes, n),
    decreases n,
{
    if n > 0 {
        lemma_mark_of_prefix(start, outcomes, last, n - 1);
    }
}

/// The window holds the day.
pub open spec fn holds(window: Window, day: int) -> bool {
    window.start <= day <= window.end
}

/// The day lies in a window that is still to be searched.
pub open spec fn is_ahead(pending: Seq<(Window, int)>, day: int) -> bool {
    exists|i: int| 0 <= i < pending.len() && holds((#[trigger] pending[i]).0, day)
}

/// The day lies in the window that is being searched or in one still to be.
pub open spec fn is_due(stand: Stand, day: int) -> bool {
    (stand.window is Some && holds(stand.window->Some_0, day)) || is_ahead(stand.pending, day)
}

/// Cutting a window in two leaves the same days to search.
pub proof fn law_cutting_keeps_the_days(stand: Stand, total: int, day: int)
    requires
        can_split(stand.window, stand.depth),
    ensures
        is_due(next_window(halved(stand, total)).0, day) == is_due(stand, day),
{
    let cut = halved(stand, total);
    let after = next_window(cut).0;
    let window = stand.window->Some_0;
    law_halves_partition_the_window(window.start, window.end, day);
    assert(after.window == Some(cut.pending[0].0));
    assert(after.pending =~= seq![cut.pending[1]] + stand.pending);
    if is_due(stand, day) {
        if holds(window, day) {
            if !holds(cut.pending[0].0, day) {
                assert(holds(after.pending[0].0, day));
            }
        } else {
            let i = choose|i: int|
                0 <= i < stand.pending.len() && holds((#[trigger] stand.pending[i]).0, day);
            assert(after.pending[i + 1] == stand.pending[i]);
        }
    }
    if is_due(after, day) && !holds(cut.pending[0].0, day) {
        let i = choose|i: int|
            0 <= i < after.pending.len() && holds((#[trigger] after.pending[i]).0, day);
        if i > 0 {
            assert(stand.pending[i - 1] == after.pending[i]);
        }
    }
}

/// No window was cut more often than is allowed.
pub open spec fn is_shallow(stand: Stand) -> bool {
    &&& stand.depth <= MAX_WINDOW_SPLIT_DEPTH
    &&& forall|i: int|
        0 <= i < stand.pending.len() ==> (#[trigger] stand.pending[i]).1 <= MAX_WINDOW_SPLIT_DEPTH
}

/// Cutting ends: no window is ever cut more often than is allowed.
pub proof fn law_cutting_ends(stand: Stand, page: UserSearchPage, login: Seq<char>, role: UserRole)
    requires
        is_shallow(stand),
        stand.goal == (Goal::Search { login, role }),
    ensures
        is_shallow(searched(stand, page, login, role).0),
{
    let total = page.total_count as int;
    let before = if overflows(stand, total) && can_split(stand.window, stand.depth) {
        halved(stand, total)
    } else {
        with_results(stand, page, login, role)
    };
    assert(is_shallow(before)) by {
        if before == halved(stand, total) && stand.total is None && can_split(
            stand.window,
            stand.depth,
        ) && overflows(stand, total) {
            assert forall|i: int| 0 <= i < before.pending.len() implies (
            #[trigger] before.pending[i]).1 <= MAX_WINDOW_SPLIT_DEPTH by {
                if i >= 2 {
                    assert(before.pending[i] == stand.pending[i - 2]);
                }
            }
        }
    }
    let after = searched(stand, page, login, role).0;
    assert forall|i: int| 0 <= i < after.pending.len() implies (#[trigger] after.pending[i]).1
        <= MAX_WINDOW_SPLIT_DEPTH by {
        if after.pending.len() == before.pending.len() {
            assert(after.pending[i] == before.pending[i]);
        } else {
            assert(after.pending[i] == before.pending[i + 1]);
        }
    }
}

/// The windows that are being searched or still to be searched.
pub open spec fn due_windows(stand: Stand) -> Seq<Window> {
    (match stand.window {
        Some(window) => seq![window],
        None => Seq::empty(),
    }) + windows_in(stand.pending)
}

/// No day lies in two of the windows.
pub open spec fn no_day_twice(windows: Seq<Window>) -> bool {
    forall|i: int, j: int, day: int|
        #![trigger holds(windows[i], day), holds(windows[j], day)]
        0 <= i < j < windows.len() && holds(windows[i], day) ==> !holds(windows[j], day)
}

/// Cutting a window in two makes no day due twice.
pub proof fn law_cutting_repeats_no_day(stand: Stand, total: int)
    requires
        can_split(stand.window, stand.depth),
        no_day_twice(due_windows(stand)),
    ensures
        no_day_twice(due_windows(next_window(halved(stand, total)).0)),
{
    let cut = halved(stand, total);
    let after = next_window(cut).0;
    let window = stand.window->Some_0;
    let old_due = due_windows(stand);
    let new_due = due_windows(after);
    assert(after.pending =~= seq![cut.pending[1]] + stand.pending);
    assert(new_due =~= seq![cut.pending[0].0, cut.pending[1].0] + windows_in(stand.pending));
    assert(old_due[0] == window);
    assert forall|i: int, j: int, day: int|
        #![trigger holds(new_due[i], day), holds(new_due[j], day)]
        0 <= i < j < new_due.len() && holds(new_due[i], day) implies !holds(new_due[j], day) by {
        law_halves_partition_the_window(window.start, window.end, day);
        if j >= 2 {
            assert(new_due[j] == old_due[j - 1]);
            if i >= 2 {
                assert(new_due[i] == old_due[i - 1]);
                assert(holds(old_due[i - 1], day));
            } else {
                assert(holds(old_due[0], day));
            }
            assert(!holds(old_due[j - 1], day));
        }
    }
}

/// A backfill is due for exactly the days that it was opened for.
pub proof fn law_a_backfill_covers_its_days(stand: Stand, start: int, end: int, day: int)
    requires
        are_months_ahead(stand.pending, start, end),
        stand.window is None,
        start <= end,
    ensures
        is_due(next_window(stand).0, day) <==> start <= day <= end,
{
    let windows = windows_in(stand.pending);
    law_month_windows_partition(windows, start, end, day);
    let after = next_window(stand).0;
    if start <= day <= end {
        let i = choose|i: int|
            0 <= i < windows.len() && (#[trigger] windows[i]).start <= day <= windows[i].end;
        if i > 0 {
            assert(after.pending[i - 1] == stand.pending[i]);
        }
    }
    if is_ahead(after.pending, day) {
        let i = choose|i: int|
            0 <= i < after.pending.len() && holds((#[trigger] after.pending[i]).0, day);
        assert(stand.pending[i + 1] == after.pending[i]);
        assert(windows[i + 1] == stand.pending[i + 1].0);
    }
    assert(windows[0] == stand.pending[0].0);
}

// ---------------------------------------------------------------- legs

/// One walk of a sync run.
#[derive(Debug, Clone, Copy, PartialEq, Eq, Structural)]
pub enum Leg {
    PullRequests,
    Issues,
    Role(UserRole),
}

/// Under which source type the cursor of a leg is kept.
pub open spec fn leg_source(leg: Leg) -> Seq<char> {
    match leg {
        Leg::PullRequests => "repo"@,
        Leg::Issues => "repo_issues"@,
        Leg::Role(role) => cursor_source_of(role),
    }
}

impl Leg {
    /// Under which source type the cursor of the leg is kept.
    pub fn source_type(self) -> (text: &'static str)
        ensures
            text@ == leg_source(self),
    {
        match self {
            Leg::PullRequests => "repo",
            Leg::Issues => "repo_issues",
            Leg::Role(role) => role.cursor_source_type(),
        }
    }
}

/// The walks of a repository run: pull requests, then issues, each unless the
/// other was asked for alone.
pub fn repository_legs(options: &SyncOptions) -> (legs: Vec<Leg>)
    ensures
        legs@ == (if options.issues_only {
            Seq::empty()
        } else {
            seq![Leg::PullRequests]
        }) + (if options.pull_requests_only {
            Seq::empty()
        } else {
            seq![Leg::Issues]
        }),
{
    let mut legs: Vec<Leg> = Vec::new();
    if !options.issues_only {
        legs.push(Leg::PullRequests);
    }
    if !options.pull_requests_only {
        legs.push(Leg::Issues);
    }
    legs
}

/// The walks of a user run: one for each role. Issues have no user-scoped
/// search.
pub fn user_legs(options: &SyncOptions) -> (legs: Vec<Leg>)
    ensures
        legs@ == (if options.issues_only {
            Seq::empty()
        } else {
            seq![Leg::Role(UserRole::Author), Leg::Role(UserRole::Reviewer)]
        }),
{
    let mut legs: Vec<Leg> = Vec::new();
    if !options.issues_only {
        legs.push(Leg::Role(UserRole::Author));
        legs.push(Leg::Role(UserRole::Reviewer));
    }
    legs
}

/// No two legs share a cursor, so neither can move the other's watermark.
pub proof fn law_legs_keep_separate_cursors(left: Leg, right: Leg)
    requires
        left != right,
    ensures
        leg_source(left) != leg_source(right),
{
    reveal_strlit("repo");
    reveal_strlit("repo_issues");
    reveal_strlit("user");
    reveal_strlit("user_reviews");
    assert("repo"@.len() == 4 && "repo_issues"@.len() == 11 && "user"@.len() == 4
        && "user_reviews"@.len() == 12);
    assert("repo"@[0] != "user"@[0]);
    assert("repo_issues"@[0] != "user_reviews"@[0]);
}

/// An item counts under its own kind: an issue that landed among the issues, a pull
/// request that landed among the pull requests, and one that failed among the
/// failures, with its id and its message.
pub proof fn law_items_count_under_their_kind(stand: Stand, failure: Option<Seq<char>>)
    requires
        stand.storing is Some,
    ensures
        ({
            let before = stand.tally;
            let after = after_item(stand, failure).tally;
            &&& failure is None && stand.goal is Issues ==> after.issues == before.issues + 1
                && after.pull_requests == before.pull_requests
            &&& failure is None && !(stand.goal is Issues) ==> after.pull_requests
                == before.pull_requests + 1 && after.issues == before.issues
            &&& failure matches Some(message) ==> after.failed == before.failed.push(
                (stand.storing->Some_0.0, message),
            ) && after.issues == before.issues && after.pull_requests == before.pull_requests
        }),
{
}

/// What a walk asks for is its own: the pages of a repository by owner and name,
/// or the results of a search, from where the last page ended.
pub proof fn law_a_walk_asks_for_its_own(stand: Stand)
    ensures
        stand.goal matches Goal::PullRequests { owner, name } ==> {
            &&& ask_of(stand).variables[0] == ("owner"@, owner)
            &&& ask_of(stand).variables[1] == ("name"@, name)
            &&& !ask_of(stand).is_search
            &&& ask_of(stand).query == REPOSITORY_QUERY_HEAD@ + decimal(stand.page_size as nat)
                + REPOSITORY_QUERY_TAIL@
        },
        stand.goal matches Goal::Issues { owner, name, .. } ==> {
            &&& ask_of(stand).variables[0] == ("owner"@, owner)
            &&& ask_of(stand).variables[1] == ("name"@, name)
            &&& !ask_of(stand).is_search
            &&& ask_of(stand).query == REPOSITORY_ISSUES_QUERY@
        },
        stand.goal matches Goal::Search { login, role } ==> {
            &&& ask_of(stand).variables[0] == (
                "q"@,
                search_expression(
                    login,
                    role,
                    match stand.window {
                        Some(window) => Some((date_key(window.start), date_key(window.end))),
                        None => None,
                    },
                ),
            )
            &&& ask_of(stand).is_search
        },
        match stand.page_cursor {
            Some(cursor) => ask_of(stand).variables.last() == ("cursor"@, cursor)
                && ask_of(stand).variables.len() == (if stand.goal is Search {
                2int
            } else {
                3int
            }),
            None => ask_of(stand).variables.len() == (if stand.goal is Search {
                1int
            } else {
                2int
            }),
        },
{
}

/// A walk goes on as long as there is something in front of it: the items of the
/// page in their order, then the page behind it, unless an item was past the stop.
pub proof fn law_a_walk_goes_on_to_what_is_in_front_of_it(stand: Stand)
    ensures
        stand.tasks.len() > 0 ==> onward(stand).1 == Deed::Store(stand.tasks[0])
            && onward(stand).0.tasks == stand.tasks.skip(1),
        stand.tasks.len() == 0 && !stand.cut && stand.next is Some ==> {
            &&& onward(stand).1 is Fetch
            &&& onward(stand).1->Fetch_0.variables.last() == ("cursor"@, stand.next->Some_0)
            &&& onward(stand).1->Fetch_0.query == ask_of(stand).query
        },
        stand.tasks.len() == 0 && (stand.cut || stand.next is None) && !(stand.goal is Search)
            ==> onward(stand).1 is Finished,
{
}

/// A page says that there is another one behind it where it says so, held
/// something, and says where that one begins.
pub proof fn law_the_next_page_is_the_one_that_is_named(
    has_next_page: bool,
    is_empty: bool,
    end_cursor: Option<Seq<char>>,
)
    ensures
        next_page(has_next_page, is_empty, end_cursor) matches Some(cursor) ==> has_next_page
            && !is_empty && end_cursor == Some(cursor),
        has_next_page && !is_empty && end_cursor is Some ==> next_page(
            has_next_page,
            is_empty,
            end_cursor,
        ) is Some,
{
}

/// The task stores a pull request under the key of its repository and its number,
/// and asks for its patches where there are files and they are wanted.
pub open spec fn stores_under(
    task: Task,
    item: PullRequestData,
    repo_key: Seq<char>,
    context: Context,
    skip_diffs: bool,
) -> bool {
    let key = repo_key + "#"@ + signed_decimal(item.number as int);
    &&& task.item_id == key
    &&& task.updated == opt_text(item.updated_at)
    &&& task.script == pull_request_script(item, repo_key, key, context)
    &&& task.is_script
    &&& task.patches is Some <==> !skip_diffs && item.files@.len() > 0
    &&& task.patches matches Some(path) ==> path == "repos/"@ + repo_key + "/pulls/"@
        + signed_decimal(item.number as int) + "/files?per_page=100"@
}

/// Every pull request of a page in front of the first one that is past the stop is
/// handed out, in the order of the page, under the key of its repository. Nothing
/// else is.
pub proof fn law_every_pull_request_of_a_page_is_handed_out(
    stand: Stand,
    page: PullRequestPage,
    n: int,
    i: int,
)
    requires
        takes(stand.stop, pull_request_updates(page.pull_requests@), n),
        0 <= i < n,
    ensures
        with_pull_requests(stand, page).tasks.len() == n,
        with_pull_requests(stand, page).cut <==> n < page.pull_requests@.len(),
        stores_under(
            with_pull_requests(stand, page).tasks[i],
            page.pull_requests@[i],
            lowercase(page.repository.name_with_owner@),
            stand.context,
            stand.skip_diffs,
        ),
        with_pull_requests(stand, page).tasks[i].setup.len() == 0,
{
    reveal(pull_request_task);
    lemma_taken(stand.stop, pull_request_updates(page.pull_requests@), n);
}

/// Every issue of a page in front of the first one that is past the stop is handed
/// out, in the order of the page.
pub proof fn law_every_issue_of_a_page_is_handed_out(
    stand: Stand,
    page: IssuePage,
    repo_key: Seq<char>,
    n: int,
    i: int,
)
    requires
        takes(stand.stop, issue_updates(page.issues@), n),
        0 <= i < n,
    ensures
        with_issues(stand, page, repo_key).tasks.len() == n,
        with_issues(stand, page, repo_key).cut <==> n < page.issues@.len(),
        with_issues(stand, page, repo_key).tasks[i].script == issue_script(
            page.issues@[i],
            repo_key,
            stand.context,
        ),
        with_issues(stand, page, repo_key).tasks[i].updated == Some(page.issues@[i].updated_at@),
        with_issues(stand, page, repo_key).tasks[i].item_id == repo_key + "#issue-"@
            + signed_decimal(page.issues@[i].number as int),
{
    reveal(issue_task);
    lemma_taken(stand.stop, issue_updates(page.issues@), n);
}

/// A search result is stored in the repository that it names, behind what is known
/// of that repository.
pub proof fn law_a_search_result_is_stored_in_its_repository(
    item: SearchedPullRequest,
    context: Context,
    skip_diffs: bool,
)
    ensures
        stores_under(
            result_task(item, context, skip_diffs),
            item.pull_request,
            lowercase(item.repository.name_with_owner@),
            context,
            skip_diffs,
        ),
        result_task(item, context, skip_diffs).setup == seq![metadata_command(item.repository)],
{
    reveal(pull_request_task);
    reveal(result_task);
}

} // verus!
