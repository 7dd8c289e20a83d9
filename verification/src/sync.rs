//! Sync orchestration: what a run covers, which pages it asks for, where it
//! stops, what it counts, and which cursor it leaves behind.

use vstd::prelude::*;
use crate::calendar::{
    day_number, in_calendar, is_civil, lemma_calendar_bounds, lemma_civil_unique,
    lemma_month_length, lemma_year_length, month_of, year_of, Date, MAX_DAY, MAX_YEAR,
};
use crate::error::{is_invalid, Error};
use crate::fetch::issues::IssueData;
use crate::fetch::pull_requests::PullRequestData;
use crate::fetch::user_search::{qualifier_of, SearchedPullRequest, UserRole, SEARCH_RESULT_CAP};
use crate::number::{decimal, push_decimal, push_signed, signed_decimal};
use crate::period::{lemma_between_months, month_end};
use crate::query::{bare_login, to_bare_login};
use crate::sql::{Cell, Command, Statement};
use crate::storage::monitor_repository::{expected_owner_and_name, MonitoredSource};
use crate::storage::sync_state_repository::{
    failures, update_lock_progress, Window, LOCK_PROGRESS_SQL,
};
use crate::text::{
    copy, copy_opt, join, join2, join3, joined, lemma_less_irreflexive, lemma_less_total,
    lemma_less_transitive, less, lower, lowercase, opt_str, opt_text, same, split_at_first,
    split_once, text_less, texts,
};

verus! {

/// Options controlling one sync run.
#[derive(Debug, Clone, PartialEq, Eq)]
pub struct SyncOptions {
    /// Start the recorded coverage window N days back instead of the default.
    ///
    /// This sets the *coverage claim* only. It does not bound the fetch: the
    /// PR and issue loops page until the source is exhausted or the
    /// incremental cursor stops them.
    pub days: Option<u32>,
    /// Skip fetching per-file patch text via REST (fast mode).
    pub skip_diffs: bool,
    /// Sync only pull requests (skip issues).
    pub pull_requests_only: bool,
    /// Sync only issues (skip pull requests).
    pub issues_only: bool,
}

impl Default for SyncOptions {
    fn default() -> (options: SyncOptions)
        ensures
            options == (SyncOptions {
                days: None,
                skip_diffs: false,
                pull_requests_only: false,
                issues_only: false,
            }),
    {
        SyncOptions {
            days: None,
            skip_diffs: false,
            pull_requests_only: false,
            issues_only: false,
        }
    }
}

/// Result summary of one sync run.
#[derive(Debug, PartialEq, Eq)]
pub struct SyncSummary {
    pub pull_requests_synced: i64,
    pub issues_synced: i64,
    pub skipped: i64,
    pub failed: Vec<(String, String)>,
    pub pages_fetched: i64,
    /// True when the incremental cursor made the run a no-op.
    pub up_to_date: bool,
    /// Caveats the caller must surface: coverage this run could not reach, and
    /// why. Empty means the run served everything it claimed.
    pub notes: Vec<String>,
}

impl Default for SyncSummary {
    fn default() -> (summary: SyncSummary)
        ensures
            summary.pull_requests_synced == 0,
            summary.issues_synced == 0,
            summary.skipped == 0,
            summary.failed@.len() == 0,
            summary.pages_fetched == 0,
            !summary.up_to_date,
            summary.notes@.len() == 0,
    {
        SyncSummary {
            pull_requests_synced: 0,
            issues_synced: 0,
            skipped: 0,
            failed: Vec::new(),
            pages_fetched: 0,
            up_to_date: false,
            notes: Vec::new(),
        }
    }
}

/// The model of a summary.
#[verifier::ext_equal]
pub ghost struct Tally {
    pub pull_requests: int,
    pub issues: int,
    pub skipped: int,
    pub failed: Seq<(Seq<char>, Seq<char>)>,
    pub pages: int,
    pub up_to_date: bool,
    pub notes: Seq<Seq<char>>,
}

impl View for SyncSummary {
    type V = Tally;

    open spec fn view(&self) -> Tally {
        Tally {
            pull_requests: self.pull_requests_synced as int,
            issues: self.issues_synced as int,
            skipped: self.skipped as int,
            failed: failures(self.failed@),
            pages: self.pages_fetched as int,
            up_to_date: self.up_to_date,
            notes: texts(self.notes@),
        }
    }
}

/// Default initial window when an entity has never been synced.
pub const INITIAL_WINDOW_DAYS: i64 = 90;

/// Page size of a repository walk: heavy PRs (many files/comments/checks) can
/// overflow GitHub's response stream, so it is halved on failure.
pub const REPOSITORY_PAGE_SIZE: u32 = 25;

/// Page size for search-backed walks. Search nodes carry the same nested
/// collections as repository nodes, so the same conservative page applies.
pub const SEARCH_PAGE_SIZE: u32 = 25;

/// How far a created-date window may be bisected before giving up on the
/// 1,000-result cap. A month halved eight times is under four hours, well past
/// the point where a further split can help.
pub const MAX_WINDOW_SPLIT_DEPTH: u32 = 8;

// ---------------------------------------------------------------- targets

/// What a repository sync is about: its lower-case name and its entity key.
pub fn repository_target(repository_name: &str) -> (target: (String, String))
    ensures
        target.0@ == lowercase(repository_name@),
        target.1@ == "repo:"@ + lowercase(repository_name@),
{
    let name = lower(repository_name);
    let entity_key = join2("repo:", &name);
    (name, entity_key)
}

/// What a user sync is about: the bare login and its entity key.
pub fn user_target(login: &str) -> (target: (String, String))
    ensures
        target.0@ == bare_login(login@),
        target.1@ == "user:"@ + bare_login(login@),
{
    let bare = to_bare_login(login);
    let entity_key = join2("user:", &bare);
    (bare, entity_key)
}

/// The owner and the name of a repository.
pub fn owner_and_name(repository_name: &str) -> (outcome: Result<(String, String), Error>)
    ensures
        match split_at_first(repository_name@, '/') {
            Some(parts) => outcome is Ok && outcome->Ok_0.0@ == parts.0 && outcome->Ok_0.1@
                == parts.1,
            None => outcome is Err && is_invalid(
                outcome->Err_0,
                expected_owner_and_name(repository_name@),
            ),
        },
{
    match split_once(repository_name, '/') {
        Some(parts) => Ok(parts),
        None => Err(
            Error::InvalidArgument(join3("expected owner/name, got '", repository_name, "'")),
        ),
    }
}

/// The start of the window that a run claims to cover: the given number of days
/// back, else the last complete day where there is coverage, else the initial
/// window, and never after the last complete day.
pub open spec fn window_start(days: Option<u32>, has_coverage: bool, today: int) -> int {
    let wanted = match days {
        Some(days) => today - days,
        None => if has_coverage {
            today - 1
        } else {
            today - INITIAL_WINDOW_DAYS
        },
    };
    if wanted <= today - 1 {
        wanted
    } else {
        today - 1
    }
}

/// The coverage window lies in the calendar.
pub open spec fn window_fits(days: Option<u32>, has_coverage: bool, today: int) -> bool {
    &&& in_calendar(today - 1)
    &&& match days {
        Some(days) => in_calendar(today - days),
        None => !has_coverage ==> in_calendar(today - INITIAL_WINDOW_DAYS),
    }
}

fn is_day(date: &Date, days: i64) -> (yes: bool)
    ensures
        yes == in_calendar(date@ + days),
{
    match date.checked_plus_days(days) {
        Some(other) => {
            proof {
                use_type_invariant(&other);
            }
            true
        },
        None => false,
    }
}

/// Does the coverage window lie in the calendar?
pub fn has_coverage_window(days: Option<u32>, has_coverage: bool, today: &Date) -> (yes: bool)
    ensures
        yes == window_fits(days, has_coverage, today@),
{
    is_day(today, -1) && match days {
        Some(days) => is_day(today, -(days as i64)),
        None => has_coverage || is_day(today, -INITIAL_WINDOW_DAYS),
    }
}

/// The window that a run claims to cover. It ends with the last complete day:
/// an item created later today would otherwise fall inside a range recorded as
/// fully covered and be skipped by any reader that trusts the claim.
pub fn coverage_window(days: Option<u32>, has_coverage: bool, today: &Date) -> (window: (
    Date,
    Date,
))
    requires
        window_fits(days, has_coverage, today@),
    ensures
        window.0@ == window_start(days, has_coverage, today@),
        window.1@ == today@ - 1,
{
    let end = today.plus_days(-1);
    let wanted = match days {
        Some(days) => today.plus_days(-(days as i64)),
        None => if has_coverage {
            end
        } else {
            today.plus_days(-INITIAL_WINDOW_DAYS)
        },
    };
    (wanted.earlier(&end), end)
}

/// A claimed window is never empty, never holds the running day, and reaches as
/// far back as was asked for.
pub proof fn law_windows_end_before_today(days: Option<u32>, has_coverage: bool, today: int)
    ensures
        window_start(days, has_coverage, today) <= today - 1,
        (days is Some && days->Some_0 >= 1) ==> window_start(days, has_coverage, today) == today
            - days->Some_0,
{
}

// ---------------------------------------------------------------- watermark

/// The `updated_at` cursor that a walk will leave behind.
#[derive(Debug, PartialEq, Eq)]
pub struct Watermark {
    /// The newest `updated_at` of an item that landed, or the cursor before.
    pub newest: Option<String>,
    /// The oldest `updated_at` of an item that failed.
    pub oldest_failed: Option<String>,
}

/// The model of a watermark.
pub ghost struct Mark {
    pub newest: Option<Seq<char>>,
    pub oldest_failed: Option<Seq<char>>,
}

impl View for Watermark {
    type V = Mark;

    open spec fn view(&self) -> Mark {
        Mark { newest: opt_text(self.newest), oldest_failed: opt_text(self.oldest_failed) }
    }
}

/// The later of two timestamps, where there are two.
pub open spec fn newer(left: Option<Seq<char>>, right: Option<Seq<char>>) -> Option<Seq<char>> {
    match (left, right) {
        (Some(a), Some(b)) => if text_less(a, b) {
            right
        } else {
            left
        },
        (None, _) => right,
        (_, None) => left,
    }
}

/// The earlier of two timestamps, where there are two.
pub open spec fn older(left: Option<Seq<char>>, right: Option<Seq<char>>) -> Option<Seq<char>> {
    match (left, right) {
        (Some(a), Some(b)) => if text_less(b, a) {
            right
        } else {
            left
        },
        (None, _) => right,
        (_, None) => left,
    }
}

/// The cursor that a watermark comes to: the newest landed item, held back at
/// the oldest failed one.
pub open spec fn cursor_of(mark: Mark) -> Option<Seq<char>> {
    match (mark.newest, mark.oldest_failed) {
        (Some(newest), Some(failed)) => if text_less(failed, newest) {
            Some(failed)
        } else {
            Some(newest)
        },
        _ => mark.newest,
    }
}

/// The watermark after an item landed.
pub open spec fn after_landing(mark: Mark, updated: Option<Seq<char>>) -> Mark {
    Mark { newest: newer(mark.newest, updated), oldest_failed: mark.oldest_failed }
}

/// The watermark after an item failed.
pub open spec fn after_failing(mark: Mark, updated: Option<Seq<char>>) -> Mark {
    Mark { newest: mark.newest, oldest_failed: older(mark.oldest_failed, updated) }
}

impl Watermark {
    /// A watermark at the cursor that was stored before.
    pub fn start(cursor: Option<&str>) -> (mark: Watermark)
        ensures
            mark@ == (Mark { newest: opt_str(cursor), oldest_failed: None }),
    {
        Watermark { newest: copy_opt(cursor), oldest_failed: None }
    }

    /// An item landed: the watermark may move up to it.
    pub fn landed(&mut self, updated: Option<&str>)
        ensures
            final(self)@ == after_landing(old(self)@, opt_str(updated)),
    {
        if let Some(updated) = updated {
            let moves = match &self.newest {
                Some(newest) => less(newest.as_str(), updated),
                None => true,
            };
            if moves {
                self.newest = Some(copy(updated));
            }
        }
    }

    /// An item failed: the watermark must not move past it. Otherwise the next
    /// run's stop condition would fire before it reaches the item again.
    pub fn failed(&mut self, updated: Option<&str>)
        ensures
            final(self)@ == after_failing(old(self)@, opt_str(updated)),
    {
        if let Some(updated) = updated {
            let moves = match &self.oldest_failed {
                Some(oldest) => less(updated, oldest.as_str()),
                None => true,
            };
            if moves {
                self.oldest_failed = Some(copy(updated));
            }
        }
    }

    /// The cursor to store.
    pub fn cursor(&self) -> (cursor: Option<String>)
        ensures
            opt_text(cursor) == cursor_of(self@),
    {
        match (&self.newest, &self.oldest_failed) {
            (Some(newest), Some(failed)) => if less(failed.as_str(), newest.as_str()) {
                Some(copy(failed.as_str()))
            } else {
                Some(copy(newest.as_str()))
            },
            (Some(newest), None) => Some(copy(newest.as_str())),
            (None, _) => None,
        }
    }
}

/// What became of an item: whether it landed, and when it was updated.
pub ghost struct Outcome {
    pub landed: bool,
    pub updated: Option<Seq<char>>,
}

/// The watermark after the first `n` items of a walk.
pub open spec fn mark_after(start: Mark, outcomes: Seq<Outcome>, n: int) -> Mark
    decreases n,
{
    if n <= 0 {
        start
    } else {
        let before = mark_after(start, outcomes, n - 1);
        let outcome = outcomes[n - 1];
        if outcome.landed {
            after_landing(before, outcome.updated)
        } else {
            after_failing(before, outcome.updated)
        }
    }
}

/// The watermark knows of an item no older than each failed one, and of an item
/// no newer than each landed one.
proof fn lemma_mark_bounds(start: Mark, outcomes: Seq<Outcome>, n: int)
    requires
        0 <= n <= outcomes.len(),
    ensures
        forall|i: int|
            0 <= i < n && !(#[trigger] outcomes[i]).landed && outcomes[i].updated is Some ==> {
                let mark = mark_after(start, outcomes, n);
                mark.oldest_failed is Some && !text_less(
                    outcomes[i].updated->Some_0,
                    mark.oldest_failed->Some_0,
                )
            },
        forall|i: int|
            0 <= i < n && (#[trigger] outcomes[i]).landed && outcomes[i].updated is Some ==> {
                let mark = mark_after(start, outcomes, n);
                mark.newest is Some && !text_less(
                    mark.newest->Some_0,
                    outcomes[i].updated->Some_0,
                )
            },
        start.newest is Some ==> {
            let mark = mark_after(start, outcomes, n);
            mark.newest is Some && !text_less(mark.newest->Some_0, start.newest->Some_0)
        },
    decreases n,
{
    if n > 0 {
        lemma_mark_bounds(start, outcomes, n - 1);
        let before = mark_after(start, outcomes, n - 1);
        let mark = mark_after(start, outcomes, n);
        let last = outcomes[n - 1];
        if last.updated is Some {
            lemma_less_irreflexive(last.updated->Some_0);
        }
        if start.newest is Some {
            lemma_less_irreflexive(start.newest->Some_0);
            lemma_not_less_chain(mark.newest, before.newest, start.newest);
        }
        if before.newest is Some && mark.newest is Some {
            lemma_less_irreflexive(before.newest->Some_0);
        }
        assert forall|i: int|
            0 <= i < n && !(#[trigger] outcomes[i]).landed && outcomes[i].updated is Some implies {
            mark.oldest_failed is Some && !text_less(
                outcomes[i].updated->Some_0,
                mark.oldest_failed->Some_0,
            )
        } by {
            if i < n - 1 {
                let item = outcomes[i].updated->Some_0;
                let held = before.oldest_failed->Some_0;
                if mark.oldest_failed != before.oldest_failed {
                    let moved = mark.oldest_failed->Some_0;
                    if text_less(item, moved) {
                        lemma_less_transitive(item, moved, held);
                    }
                }
            }
        }
        assert forall|i: int|
            0 <= i < n && (#[trigger] outcomes[i]).landed && outcomes[i].updated is Some implies {
            mark.newest is Some && !text_less(mark.newest->Some_0, outcomes[i].updated->Some_0)
        } by {
            if i < n - 1 {
                let item = outcomes[i].updated->Some_0;
                let held = before.newest->Some_0;
                if mark.newest != before.newest {
                    let moved = mark.newest->Some_0;
                    if text_less(moved, item) {
                        lemma_less_transitive(held, moved, item);
                    }
                }
            }
        }
    } else if start.newest is Some {
        lemma_less_irreflexive(start.newest->Some_0);
    }
}

/// Where `b` is not below `c` and `a` is `b` or above it, `a` is not below `c`.
proof fn lemma_not_less_chain(a: Option<Seq<char>>, b: Option<Seq<char>>, c: Option<Seq<char>>)
    requires
        a is Some,
        b is Some,
        c is Some,
        !text_less(b->Some_0, c->Some_0),
        a == b || text_less(b->Some_0, a->Some_0),
    ensures
        !text_less(a->Some_0, c->Some_0),
{
    if a != b && text_less(a->Some_0, c->Some_0) {
        lemma_less_transitive(b->Some_0, a->Some_0, c->Some_0);
    }
}

/// The item is strictly older than the cursor, so the walk stops in front of
/// it.
pub open spec fn is_past(stop: Option<Seq<char>>, updated: Option<Seq<char>>) -> bool {
    match (stop, updated) {
        (Some(stop), Some(updated)) => text_less(updated, stop),
        _ => false,
    }
}

/// A failed item is retried: the cursor that a walk leaves behind never stops
/// the next run in front of an item that did not land.
pub proof fn law_failed_items_are_retried(start: Mark, outcomes: Seq<Outcome>, i: int)
    requires
        start.oldest_failed is None,
        0 <= i < outcomes.len(),
        !outcomes[i].landed,
    ensures
        !is_past(
            cursor_of(mark_after(start, outcomes, outcomes.len() as int)),
            outcomes[i].updated,
        ),
{
    lemma_mark_bounds(start, outcomes, outcomes.len() as int);
    let mark = mark_after(start, outcomes, outcomes.len() as int);
    if outcomes[i].updated is Some && mark.newest is Some {
        let item = outcomes[i].updated->Some_0;
        let failed = mark.oldest_failed->Some_0;
        let newest = mark.newest->Some_0;
        if !text_less(failed, newest) && text_less(item, newest) {
            lemma_less_total(failed, newest);
            if failed != newest {
                lemma_less_transitive(item, newest, failed);
            }
        }
    }
}

/// The cursor never moves back: as long as no failed item is older than the
/// cursor that the walk started from, the cursor it leaves is no older either.
pub proof fn law_cursor_moves_forward(start: Mark, outcomes: Seq<Outcome>)
    requires
        start.oldest_failed is None,
        start.newest is Some,
        forall|i: int|
            0 <= i < outcomes.len() ==> !is_past(start.newest, (#[trigger] outcomes[i]).updated),
    ensures
        cursor_of(mark_after(start, outcomes, outcomes.len() as int)) matches Some(cursor)
            && !text_less(cursor, start.newest->Some_0),
{
    lemma_mark_bounds(start, outcomes, outcomes.len() as int);
    lemma_failed_not_past(start, outcomes, outcomes.len() as int);
}

proof fn lemma_failed_not_past(start: Mark, outcomes: Seq<Outcome>, n: int)
    requires
        start.oldest_failed is None,
        0 <= n <= outcomes.len(),
        forall|i: int|
            0 <= i < outcomes.len() ==> !is_past(start.newest, (#[trigger] outcomes[i]).updated),
    ensures
        !is_past(start.newest, mark_after(start, outcomes, n).oldest_failed),
    decreases n,
{
    if n > 0 {
        lemma_failed_not_past(start, outcomes, n - 1);
        assert(!is_past(start.newest, outcomes[n - 1].updated));
    }
}

/// The stop is strict: an item updated in the same second as the cursor is read
/// again rather than lost.
pub proof fn law_the_boundary_second_is_read_again(cursor: Seq<char>)
    ensures
        !is_past(Some(cursor), Some(cursor)),
{
    lemma_less_irreflexive(cursor);
}

// ---------------------------------------------------------------- walks

/// Where a page-by-page walk stands.
#[derive(Debug, PartialEq, Eq)]
pub struct Walk {
    /// The cursor of the last run, at which this one stops.
    pub stop: Option<String>,
    /// The page to ask for; the first one where there is none.
    pub page_cursor: Option<String>,
    /// How many items to ask for at once.
    pub page_size: u32,
    /// How many items were looked at.
    pub item_index: i64,
}

/// A smaller page size to try after a failed fetch: half as large, down to one.
pub open spec fn smaller_page(page_size: u32) -> u32 {
    if page_size / 2 >= 1 {
        (page_size / 2) as u32
    } else {
        1
    }
}

/// Halving ends: every page size larger than one becomes smaller, and none
/// becomes zero.
pub proof fn law_page_sizes_shrink_to_one(page_size: u32)
    requires
        page_size > 1,
    ensures
        1 <= smaller_page(page_size) < page_size,
{
}

/// The first `n` of these items are those that the walk still has to take, and
/// the next one, if there is one, is past the stop.
pub open spec fn takes(stop: Option<Seq<char>>, updates: Seq<Option<Seq<char>>>, n: int) -> bool {
    &&& 0 <= n <= updates.len()
    &&& forall|i: int| 0 <= i < n ==> !is_past(stop, #[trigger] updates[i])
    &&& n < updates.len() ==> is_past(stop, updates[n])
}

/// When each pull request was updated.
pub open spec fn pull_request_updates(items: Seq<PullRequestData>) -> Seq<Option<Seq<char>>> {
    Seq::new(items.len(), |i: int| opt_text(items[i].updated_at))
}

/// When each issue was updated.
pub open spec fn issue_updates(items: Seq<IssueData>) -> Seq<Option<Seq<char>>> {
    Seq::new(items.len(), |i: int| Some(items[i].updated_at@))
}

/// When each search result was updated.
pub open spec fn result_updates(items: Seq<SearchedPullRequest>) -> Seq<Option<Seq<char>>> {
    Seq::new(items.len(), |i: int| opt_text(items[i].pull_request.updated_at))
}

/// The variables of a query, with the page cursor where there is one.
pub open spec fn with_cursor(
    variables: Seq<(Seq<char>, Seq<char>)>,
    cursor: Option<Seq<char>>,
) -> Seq<(Seq<char>, Seq<char>)> {
    match cursor {
        Some(cursor) => variables.push(("cursor"@, cursor)),
        None => variables,
    }
}

impl Walk {
    /// A walk from the first page.
    pub fn start(stop: Option<&str>, page_size: u32) -> (walk: Walk)
        ensures
            opt_text(walk.stop) == opt_str(stop),
            walk.page_cursor is None,
            walk.page_size == page_size,
            walk.item_index == 0,
    {
        Walk { stop: copy_opt(stop), page_cursor: None, page_size, item_index: 0 }
    }

    /// Degrade after a failed fetch: try the same page with half the size. A
    /// page of one cannot be made smaller, so its failure stands.
    pub fn retry_smaller(&mut self) -> (retry: bool)
        ensures
            retry == (old(self).page_size > 1),
            final(self).page_size == (if old(self).page_size > 1 {
                smaller_page(old(self).page_size)
            } else {
                old(self).page_size
            }),
            final(self).stop == old(self).stop,
            final(self).page_cursor == old(self).page_cursor,
            final(self).item_index == old(self).item_index,
    {
        if self.page_size > 1 {
            self.page_size = self.page_size / 2;
            true
        } else {
            false
        }
    }

    /// Add the page cursor to the variables of a query.
    fn push_cursor(&self, variables: &mut Vec<(String, String)>)
        ensures
            failures(final(variables)@) == with_cursor(
                failures(old(variables)@),
                opt_text(self.page_cursor),
            ),
    {
        if let Some(cursor) = &self.page_cursor {
            let ghost before = failures(variables@);
            let pair = (copy("cursor"), copy(cursor.as_str()));
            variables.push(pair);
            assert(failures(variables@) =~= before.push(("cursor"@, cursor@)));
        }
    }

    /// The variables of a repository query for the current page.
    pub fn repository_variables(&self, owner: &str, name: &str) -> (variables: Vec<
        (String, String),
    >)
        ensures
            failures(variables@) == with_cursor(
                seq![("owner"@, owner@), ("name"@, name@)],
                opt_text(self.page_cursor),
            ),
    {
        let mut variables: Vec<(String, String)> = Vec::new();
        variables.push((copy("owner"), copy(owner)));
        variables.push((copy("name"), copy(name)));
        assert(failures(variables@) =~= seq![("owner"@, owner@), ("name"@, name@)]);
        self.push_cursor(&mut variables);
        variables
    }

    /// The variables of a search query for the current page.
    pub fn search_variables(&self, expression: &str) -> (variables: Vec<(String, String)>)
        ensures
            failures(variables@) == with_cursor(
                seq![("q"@, expression@)],
                opt_text(self.page_cursor),
            ),
    {
        let mut variables: Vec<(String, String)> = Vec::new();
        variables.push((copy("q"), copy(expression)));
        assert(failures(variables@) =~= seq![("q"@, expression@)]);
        self.push_cursor(&mut variables);
        variables
    }

    /// Is an item strictly older than the cursor? Results are newest first, so
    /// everything behind it is already ingested.
    ///
    /// The comparison must be strict. `updated_at` is second-granular, so an
    /// item updated in the same second as the cursor, after the previous run
    /// had already served its page, sits exactly at the boundary. Stopping
    /// there would skip it forever. Re-ingesting the boundary second instead
    /// is free: the upserts are idempotent.
    pub fn is_past_stop(&self, updated: Option<&str>) -> (yes: bool)
        ensures
            yes == is_past(opt_text(self.stop), opt_str(updated)),
    {
        match (&self.stop, updated) {
            (Some(stop), Some(updated)) => less(updated, stop.as_str()),
            _ => false,
        }
    }

    /// How many of a page's pull requests to take.
    pub fn wanted_pull_requests(&self, items: &Vec<PullRequestData>) -> (n: usize)
        ensures
            takes(opt_text(self.stop), pull_request_updates(items@), n as int),
    {
        let mut n: usize = 0;
        while n < items.len()
            invariant
                n <= items.len(),
                forall|i: int|
                    0 <= i < n ==> !is_past(
                        opt_text(self.stop),
                        #[trigger] pull_request_updates(items@)[i],
                    ),
            decreases items.len() - n,
        {
            if self.is_past_stop(crate::text::as_slice(&items[n].updated_at)) {
                return n;
            }
            n = n + 1;
        }
        n
    }

    /// How many of a page's issues to take.
    pub fn wanted_issues(&self, items: &Vec<IssueData>) -> (n: usize)
        ensures
            takes(opt_text(self.stop), issue_updates(items@), n as int),
    {
        let mut n: usize = 0;
        while n < items.len()
            invariant
                n <= items.len(),
                forall|i: int|
                    0 <= i < n ==> !is_past(opt_text(self.stop), #[trigger] issue_updates(items@)[i]),
            decreases items.len() - n,
        {
            if self.is_past_stop(Some(items[n].updated_at.as_str())) {
                return n;
            }
            n = n + 1;
        }
        n
    }

    /// How many of a page's search results to take.
    pub fn wanted_results(&self, items: &Vec<SearchedPullRequest>) -> (n: usize)
        ensures
            takes(opt_text(self.stop), result_updates(items@), n as int),
    {
        let mut n: usize = 0;
        while n < items.len()
            invariant
                n <= items.len(),
                forall|i: int|
                    0 <= i < n ==> !is_past(
                        opt_text(self.stop),
                        #[trigger] result_updates(items@)[i],
                    ),
            decreases items.len() - n,
        {
            if self.is_past_stop(crate::text::as_slice(&items[n].pull_request.updated_at)) {
                return n;
            }
            n = n + 1;
        }
        n
    }
}

/// A page is taken whole or up to its first item past the stop, never with a
/// hole: the number of taken items is determined by the page.
pub proof fn law_a_page_is_cut_once(
    stop: Option<Seq<char>>,
    updates: Seq<Option<Seq<char>>>,
    n: int,
    m: int,
)
    requires
        takes(stop, updates, n),
        takes(stop, updates, m),
    ensures
        n == m,
{
    if n < m {
        assert(!is_past(stop, updates[n]));
    }
    if m < n {
        assert(!is_past(stop, updates[m]));
    }
}

// ---------------------------------------------------------------- counting

/// The command that reports the progress of a run.
pub open spec fn progress_command(
    entity_key: Seq<char>,
    current: int,
    item_id: Seq<char>,
    synced: int,
    skipped: int,
    failed: int,
) -> Command {
    Command {
        sql: LOCK_PROGRESS_SQL@,
        params: seq![
            Cell::Text(entity_key),
            Cell::Integer(current),
            Cell::Text(item_id),
            Cell::Integer(synced),
            Cell::Integer(skipped),
            Cell::Integer(failed),
        ],
    }
}

/// The list of failed items after one more outcome.
pub open spec fn failures_after(
    failed: Seq<(Seq<char>, Seq<char>)>,
    item_id: Seq<char>,
    failure: Option<Seq<char>>,
) -> Seq<(Seq<char>, Seq<char>)> {
    match failure {
        Some(message) => failed.push((item_id, message)),
        None => failed,
    }
}

/// One more where the item landed.
pub open spec fn count_after(count: int, failure: Option<Seq<char>>) -> int {
    if failure is None {
        count + 1
    } else {
        count
    }
}

/// The watermark after an outcome.
pub open spec fn mark_with(mark: Mark, updated: Option<Seq<char>>, failure: Option<Seq<char>>) -> Mark {
    if failure is None {
        after_landing(mark, updated)
    } else {
        after_failing(mark, updated)
    }
}

/// The key of a pull request.
pub fn pull_request_key(repo_key: &str, number: i64) -> (key: String)
    ensures
        key@ == repo_key@ + "#"@ + signed_decimal(number as int),
{
    let mut key = join2(repo_key, "#");
    push_signed(&mut key, number);
    key
}

/// The id under which an issue is reported.
pub fn issue_item_id(repo_key: &str, number: i64) -> (id: String)
    ensures
        id@ == repo_key@ + "#issue-"@ + signed_decimal(number as int),
{
    let mut id = join2(repo_key, "#issue-");
    push_signed(&mut id, number);
    id
}

/// Add a failed item to a list.
fn push_failure(failed: &mut Vec<(String, String)>, item_id: &str, message: &str)
    ensures
        failures(final(failed)@) == failures(old(failed)@).push((item_id@, message@)),
{
    let ghost before = failures(failed@);
    failed.push((copy(item_id), copy(message)));
    assert(failures(failed@) =~= before.push((item_id@, message@)));
}

impl SyncSummary {
    /// A page was fetched.
    pub fn count_page(&mut self)
        requires
            old(self).pages_fetched < i64::MAX,
        ensures
            *final(self) == (SyncSummary {
                pages_fetched: (old(self).pages_fetched + 1) as i64,
                ..*old(self)
            }),
    {
        self.pages_fetched = self.pages_fetched + 1;
    }

    /// The walk over a repository's pull requests met an item past its stop:
    /// the run was a no-op where nothing had been synced.
    pub fn stop_at_cursor(&mut self)
        ensures
            *final(self) == (SyncSummary {
                up_to_date: old(self).pull_requests_synced == 0,
                ..*old(self)
            }),
    {
        self.up_to_date = self.pull_requests_synced == 0;
    }

    /// Take note of what became of a repository's pull request, and report the
    /// progress.
    pub fn record_pull_request(
        &mut self,
        walk: &mut Walk,
        mark: &mut Watermark,
        entity_key: &str,
        pr_key: &str,
        updated: Option<&str>,
        failure: Option<&str>,
    ) -> (progress: Statement)
        requires
            old(self).pull_requests_synced < i64::MAX,
            old(walk).item_index < i64::MAX,
        ensures
            final(self).pull_requests_synced == count_after(
                old(self).pull_requests_synced as int,
                opt_str(failure),
            ),
            failures(final(self).failed@) == failures_after(
                failures(old(self).failed@),
                pr_key@,
                opt_str(failure),
            ),
            final(self).issues_synced == old(self).issues_synced,
            final(self).skipped == old(self).skipped,
            final(self).pages_fetched == old(self).pages_fetched,
            final(self).up_to_date == old(self).up_to_date,
            final(self).notes == old(self).notes,
            *final(walk) == (Walk { item_index: (old(walk).item_index + 1) as i64, ..*old(walk) }),
            final(mark)@ == mark_with(old(mark)@, opt_str(updated), opt_str(failure)),
            progress@ == progress_command(
                entity_key@,
                old(walk).item_index + 1,
                pr_key@,
                final(self).pull_requests_synced as int,
                old(self).skipped as int,
                final(self).failed@.len() as i64 as int,
            ),
    {
        walk.item_index = walk.item_index + 1;
        match failure {
            None => {
                self.pull_requests_synced = self.pull_requests_synced + 1;
                mark.landed(updated);
            },
            Some(message) => {
                push_failure(&mut self.failed, pr_key, message);
                mark.failed(updated);
            },
        }
        update_lock_progress(
            entity_key,
            walk.item_index,
            pr_key,
            self.pull_requests_synced,
            self.skipped,
            self.failed.len() as i64,
        )
    }

    /// Take note of what became of an issue, and report the progress.
    pub fn record_issue(
        &mut self,
        walk: &mut Walk,
        mark: &mut Watermark,
        entity_key: &str,
        item_id: &str,
        updated: Option<&str>,
        failure: Option<&str>,
    ) -> (progress: Statement)
        requires
            i64::MIN <= old(self).pull_requests_synced + old(self).issues_synced < i64::MAX,
            old(self).issues_synced < i64::MAX,
            old(walk).item_index < i64::MAX,
        ensures
            final(self).issues_synced == count_after(
                old(self).issues_synced as int,
                opt_str(failure),
            ),
            failures(final(self).failed@) == failures_after(
                failures(old(self).failed@),
                item_id@,
                opt_str(failure),
            ),
            final(self).pull_requests_synced == old(self).pull_requests_synced,
            final(self).skipped == old(self).skipped,
            final(self).pages_fetched == old(self).pages_fetched,
            final(self).up_to_date == old(self).up_to_date,
            final(self).notes == old(self).notes,
            *final(walk) == (Walk { item_index: (old(walk).item_index + 1) as i64, ..*old(walk) }),
            final(mark)@ == mark_with(old(mark)@, opt_str(updated), opt_str(failure)),
            progress@ == progress_command(
                entity_key@,
                old(walk).item_index + 1,
                item_id@,
                final(self).pull_requests_synced + final(self).issues_synced,
                old(self).skipped as int,
                final(self).failed@.len() as i64 as int,
            ),
    {
        walk.item_index = walk.item_index + 1;
        match failure {
            None => {
                self.issues_synced = self.issues_synced + 1;
                mark.landed(updated);
            },
            Some(message) => {
                push_failure(&mut self.failed, item_id, message);
                mark.failed(updated);
            },
        }
        update_lock_progress(
            entity_key,
            walk.item_index,
            item_id,
            self.pull_requests_synced + self.issues_synced,
            self.skipped,
            self.failed.len() as i64,
        )
    }

    /// Take note of what became of a search result, and report the progress.
    pub fn record_result(
        &mut self,
        mark: &mut Watermark,
        entity_key: &str,
        pr_key: &str,
        updated: Option<&str>,
        failure: Option<&str>,
    ) -> (progress: Statement)
        requires
            0 <= old(self).pull_requests_synced,
            old(self).pull_requests_synced + old(self).failed@.len() < i64::MAX,
        ensures
            final(self).pull_requests_synced == count_after(
                old(self).pull_requests_synced as int,
                opt_str(failure),
            ),
            failures(final(self).failed@) == failures_after(
                failures(old(self).failed@),
                pr_key@,
                opt_str(failure),
            ),
            final(self).issues_synced == old(self).issues_synced,
            final(self).skipped == old(self).skipped,
            final(self).pages_fetched == old(self).pages_fetched,
            final(self).up_to_date == old(self).up_to_date,
            final(self).notes == old(self).notes,
            final(mark)@ == mark_with(old(mark)@, opt_str(updated), opt_str(failure)),
            progress@ == progress_command(
                entity_key@,
                final(self).pull_requests_synced + final(self).failed@.len(),
                pr_key@,
                final(self).pull_requests_synced as int,
                old(self).skipped as int,
                final(self).failed@.len() as int,
            ),
    {
        let ghost count = self.failed@.len();
        match failure {
            None => {
                self.pull_requests_synced = self.pull_requests_synced + 1;
                mark.landed(updated);
            },
            Some(message) => {
                push_failure(&mut self.failed, pr_key, message);
                mark.failed(updated);
                assert(failures(self.failed@).len() == count + 1);
            },
        }
        let failed: i64 = self.failed.len() as i64;
        update_lock_progress(
            entity_key,
            self.pull_requests_synced + failed,
            pr_key,
            self.pull_requests_synced,
            self.skipped,
            failed,
        )
    }

    /// Add a caveat.
    pub fn note(&mut self, note: String)
        ensures
            texts(final(self).notes@) == texts(old(self).notes@).push(note@),
            final(self).pull_requests_synced == old(self).pull_requests_synced,
            final(self).issues_synced == old(self).issues_synced,
            final(self).skipped == old(self).skipped,
            final(self).failed == old(self).failed,
            final(self).pages_fetched == old(self).pages_fetched,
            final(self).up_to_date == old(self).up_to_date,
    {
        let ghost before = texts(self.notes@);
        self.notes.push(note);
        assert(texts(self.notes@) =~= before.push(note@));
    }

    /// The end of a user sync: it was a no-op where nothing was synced and
    /// nothing failed.
    pub fn close_user(&mut self)
        ensures
            *final(self) == (SyncSummary {
                up_to_date: old(self).pull_requests_synced == 0 && old(self).failed@.len() == 0,
                ..*old(self)
            }),
    {
        self.up_to_date = self.pull_requests_synced == 0 && self.failed.len() == 0;
    }
}

// ---------------------------------------------------------------- user walks

/// The note that an issues-only run leaves for a user.
pub open spec fn issues_only_text(login: Seq<char>) -> Seq<char> {
    login + ": --issues-only has no user-scoped equivalent; user sync covers pull requests and reviews"@
}

/// The note that an issues-only run leaves for a user: issues are fetched per
/// repository, and saying so beats returning zero silently.
pub fn issues_only_note(login: &str) -> (note: String)
    ensures
        note@ == issues_only_text(login@),
{
    join2(
        login,
        ": --issues-only has no user-scoped equivalent; user sync covers pull requests and reviews",
    )
}

/// Does a role's walk run incrementally? It does when there is both prior
/// coverage and a cursor to stop on. Otherwise it is a backfill, and a backfill
/// must be windowed: newest-first with a stop cannot reach an old PR whose
/// `updated_at` already sits below the cursor.
pub fn is_incremental(days: Option<u32>, has_coverage: bool, has_cursor: bool) -> (yes: bool)
    ensures
        yes == (days is None && has_coverage && has_cursor),
{
    days.is_none() && has_coverage && has_cursor
}

/// What the first page of a search walk leads to.
#[derive(Debug, PartialEq, Eq)]
pub enum FirstPage {
    /// Take the page.
    Proceed,
    /// Search the two halves of the window instead.
    Split((Date, Date), (Date, Date)),
    /// Take the page, with a note that results beyond the cap are not served.
    Capped(String),
}

/// The day at which a window is cut.
pub open spec fn midpoint(start: int, end: int) -> int {
    start + (end - start) / 2
}

/// The window of two dates.
pub open spec fn opt_window(window: Option<(Date, Date)>) -> Option<Window> {
    match window {
        Some((start, end)) => Some(Window { start: start@, end: end@ }),
        None => None,
    }
}

/// The window can be cut in two.
pub open spec fn can_split(window: Option<Window>, depth: int) -> bool {
    window matches Some(window) && window.start < window.end && depth < MAX_WINDOW_SPLIT_DEPTH
}

/// The note that a search beyond the result cap leaves.
pub open spec fn cap_text(
    login: Seq<char>,
    role: UserRole,
    expression: Seq<char>,
    total: int,
) -> Seq<char> {
    login + " ("@ + qualifier_of(role) + "): '"@ + expression + "' matches "@ + signed_decimal(total)
        + " items but GitHub search serves at most "@ + signed_decimal(SEARCH_RESULT_CAP as int)
        + "; results beyond the cap in this window were not fetched"@
}

/// Decide on the first page of a search walk. A windowed walk intends to
/// paginate to exhaustion, so a match count over the cap is decided here,
/// before any of this window's work is spent on a query that cannot serve it
/// all. An incremental walk is bounded by its stop instead.
pub fn first_page(
    login: &str,
    role: UserRole,
    expression: &str,
    window: Option<(Date, Date)>,
    has_stop: bool,
    total_count: i64,
    depth: u32,
) -> (decision: FirstPage)
    ensures
        if has_stop || total_count <= SEARCH_RESULT_CAP {
            decision is Proceed
        } else if can_split(opt_window(window), depth as int) {
            let start = window->Some_0.0@;
            let end = window->Some_0.1@;
            decision matches FirstPage::Split(left, right) && left.0@ == start && left.1@
                == midpoint(start, end) && right.0@ == midpoint(start, end) + 1 && right.1@ == end
        } else {
            decision matches FirstPage::Capped(note) && note@ == cap_text(
                login@,
                role,
                expression@,
                total_count as int,
            )
        },
{
    if has_stop || total_count <= SEARCH_RESULT_CAP {
        return FirstPage::Proceed;
    }
    if let Some((start, end)) = window {
        if start.is_before(&end) && depth < MAX_WINDOW_SPLIT_DEPTH {
            proof {
                use_type_invariant(&start);
                use_type_invariant(&end);
            }
            let middle = start.plus_days(end.days_since(&start) / 2);
            let next = middle.plus_days(1);
            return FirstPage::Split((start, middle), (next, end));
        }
    }
    let mut note = join3(login, " (", role.qualifier());
    note.append("): '");
    note.append(expression);
    note.append("' matches ");
    push_signed(&mut note, total_count);
    note.append(" items but GitHub search serves at most ");
    push_signed(&mut note, SEARCH_RESULT_CAP);
    note.append("; results beyond the cap in this window were not fetched");
    FirstPage::Capped(note)
}

/// A cut loses nothing and repeats nothing: each day of the window lies in
/// exactly one of the halves, and both halves are shorter and not empty.
pub proof fn law_halves_partition_the_window(start: int, end: int, day: int)
    requires
        start < end,
    ensures
        start <= day <= end <==> (start <= day <= midpoint(start, end)) || (midpoint(start, end) + 1
            <= day <= end),
        !((start <= day <= midpoint(start, end)) && (midpoint(start, end) + 1 <= day <= end)),
        start <= midpoint(start, end) < end,
{
}

/// The note that an incremental walk leaves when it ran out of results.
pub open spec fn shortfall_text(login: Seq<char>, role: UserRole, total: int) -> Seq<char> {
    login + " ("@ + qualifier_of(role)
        + "): incremental walk ran out of search results before reaching its watermark ("@
        + signed_decimal(total) + " matches, "@ + signed_decimal(SEARCH_RESULT_CAP as int)
        + " served per query); backfill the gap with `githubdw sync user "@ + login + " --days N`"@
}

/// An incremental walk that ran out of pages *without* reaching its stop did
/// not converge: search stopped serving results before the gap closed, so items
/// between the cap and the stop are still missing. A walk that reached the stop
/// is complete no matter how many lifetime matches the query reports, which is
/// why this cannot be decided from the match count alone.
pub fn shortfall_note(
    login: &str,
    role: UserRole,
    has_stop: bool,
    reached_stop: bool,
    reported_total: i64,
) -> (note: Option<String>)
    ensures
        if has_stop && !reached_stop && reported_total > SEARCH_RESULT_CAP {
            note matches Some(note) && note@ == shortfall_text(
                login@,
                role,
                reported_total as int,
            )
        } else {
            note is None
        },
{
    if !has_stop || reached_stop || reported_total <= SEARCH_RESULT_CAP {
        return None;
    }
    let mut note = join3(login, " (", role.qualifier());
    note.append("): incremental walk ran out of search results before reaching its watermark (");
    push_signed(&mut note, reported_total);
    note.append(" matches, ");
    push_signed(&mut note, SEARCH_RESULT_CAP);
    note.append(" served per query); backfill the gap with `githubdw sync user ");
    note.append(login);
    note.append(" --days N`");
    Some(note)
}

// ---------------------------------------------------------------- month windows

/// The last day of the month of a day. In the last month of the calendar it is
/// the day itself, because the day behind the month does not exist.
pub open spec fn month_last(day: int) -> int {
    if year_of(day) == MAX_YEAR && month_of(day) == 12 {
        day
    } else {
        month_end(year_of(day), month_of(day))
    }
}

/// The window behind the `i`-th begins on the day after it.
pub open spec fn follows(windows: Seq<Window>, i: int) -> bool {
    windows[i].end + 1 == windows[i + 1].start
}

/// The windows begin at `start`, follow each other without a gap, and each goes
/// to the end of its month or to `end`.
pub open spec fn are_month_windows(windows: Seq<Window>, start: int, end: int) -> bool {
    &&& windows.len() > 0
    &&& windows[0].start == start
    &&& windows.last().end == end
    &&& forall|i: int|
        0 <= i < windows.len() ==> (#[trigger] windows[i]).start <= windows[i].end && windows[i].end
            == (if month_last(windows[i].start) <= end {
            month_last(windows[i].start)
        } else {
            end
        })
    &&& forall|i: int| 0 <= i < windows.len() - 1 ==> #[trigger] follows(windows, i)
}

/// The windows of pairs of dates.
pub open spec fn date_windows(pairs: Seq<(Date, Date)>) -> Seq<Window> {
    Seq::new(pairs.len(), |i: int| Window { start: pairs[i].0@, end: pairs[i].1@ })
}

fn last_day_of_month(date: &Date) -> (last: Date)
    ensures
        last@ == month_last(date@),
        last@ >= date@,
{
    let civil = date.civil();
    let year = civil.0;
    let month = civil.1;
    proof {
        use_type_invariant(date);
        lemma_calendar_bounds();
        lemma_month_length(year as int, month as int);
        lemma_year_length(year as int);
    }
    let first = if month == 12 {
        Date::from_ymd_opt(year + 1, 1, 1)
    } else {
        Date::from_ymd_opt(year, month + 1, 1)
    };
    match first {
        Some(first) => {
            proof {
                use_type_invariant(&first);
            }
            first.plus_days(-1)
        },
        None => *date,
    }
}

/// Partition `[start, end]` into calendar-month windows.
///
/// Search caps at 1,000 results per query, so a backfill cannot ask for a
/// person's whole history in one call. Months are the natural first cut: they
/// keep the query count low for a normal contributor, and a month that still
/// overflows is bisected further by the walk itself. The last day of the
/// calendar has no day behind it and is left out.
pub fn month_windows(start: Date, end: Date) -> (windows: Vec<(Date, Date)>)
    requires
        end@ < MAX_DAY,
    ensures
        if start@ > end@ {
            windows@.len() == 0
        } else {
            are_month_windows(date_windows(windows@), start@, end@)
        },
{
    let mut windows: Vec<(Date, Date)> = Vec::new();
    if end.is_before(&start) {
        return windows;
    }
    let mut cursor = start;
    while !end.is_before(&cursor)
        invariant
            end@ < MAX_DAY,
            start@ <= end@,
            cursor@ <= end@ + 1,
            windows@.len() == 0 ==> cursor@ == start@,
            windows@.len() > 0 ==> {
                let made = date_windows(windows@);
                &&& made[0].start == start@
                &&& made.last().end + 1 == cursor@
                &&& forall|i: int|
                    0 <= i < made.len() ==> (#[trigger] made[i]).start <= made[i].end && made[i].end
                        == (if month_last(made[i].start) <= end@ {
                        month_last(made[i].start)
                    } else {
                        end@
                    })
                &&& forall|i: int| 0 <= i < made.len() - 1 ==> #[trigger] follows(made, i)
            },
        decreases end@ - cursor@ + 1,
    {
        let window_end = last_day_of_month(&cursor).earlier(&end);
        let ghost before = date_windows(windows@);
        windows.push((cursor, window_end));
        proof {
            use_type_invariant(&window_end);
            let made = date_windows(windows@);
            assert(made =~= before.push(Window { start: cursor@, end: window_end@ }));
            assert forall|i: int| 0 <= i < made.len() - 1 implies #[trigger] follows(made, i) by {
                assert(made[i] == before[i]);
                if i + 1 < before.len() {
                    assert(follows(before, i));
                    assert(made[i + 1] == before[i + 1]);
                }
            }
            assert forall|i: int| 0 <= i < made.len() implies (#[trigger] made[i]).start
                <= made[i].end && made[i].end == (if month_last(made[i].start) <= end@ {
                month_last(made[i].start)
            } else {
                end@
            }) by {
                if i < before.len() {
                    assert(made[i] == before[i]);
                }
            }
        }
        cursor = window_end.plus_days(1);
    }
    windows
}

/// The windows up to the `n`-th hold exactly the days up to its end.
proof fn lemma_windows_hold(windows: Seq<Window>, start: int, end: int, n: int, day: int)
    requires
        are_month_windows(windows, start, end),
        0 <= n < windows.len(),
    ensures
        windows[n].end >= start,
        start <= day <= windows[n].end <==> exists|i: int|
            0 <= i <= n && (#[trigger] windows[i]).start <= day <= windows[i].end,
        forall|i: int| 0 <= i < n ==> (#[trigger] windows[i]).end < windows[n].start,
    decreases n,
{
    if n > 0 {
        lemma_windows_hold(windows, start, end, n - 1, day);
        assert(follows(windows, n - 1));
        if start <= day <= windows[n].end && day > windows[n - 1].end {
            assert(windows[n].start <= day <= windows[n].end);
        }
        if start <= day <= windows[n - 1].end {
            let i = choose|i: int|
                0 <= i <= n - 1 && (#[trigger] windows[i]).start <= day <= windows[i].end;
            assert(0 <= i <= n && windows[i].start <= day <= windows[i].end);
        }
    } else {
        assert(windows[0].start == start);
    }
}

/// A backfill asks for each day once: every day from `start` to `end` lies in
/// exactly one of the month windows, and no other day lies in any.
pub proof fn law_month_windows_partition(windows: Seq<Window>, start: int, end: int, day: int)
    requires
        are_month_windows(windows, start, end),
    ensures
        start <= day <= end <==> exists|i: int|
            0 <= i < windows.len() && (#[trigger] windows[i]).start <= day <= windows[i].end,
        forall|i: int, j: int|
            0 <= i < j < windows.len() ==> (#[trigger] windows[i]).end < (
            #[trigger] windows[j]).start,
{
    let last = windows.len() - 1;
    lemma_windows_hold(windows, start, end, last, day);
    assert forall|i: int, j: int| 0 <= i < j < windows.len() implies (#[trigger] windows[i]).end < (
    #[trigger] windows[j]).start by {
        lemma_windows_hold(windows, start, end, j, day);
    }
}

/// A month window never reaches into another month.
pub proof fn law_month_windows_stay_in_a_month(
    windows: Seq<Window>,
    start: int,
    end: int,
    i: int,
    day: int,
    year: int,
    month: int,
    of_month: int,
)
    requires
        are_month_windows(windows, start, end),
        0 <= i < windows.len(),
        is_civil(windows[i].start, year, month, of_month),
        windows[i].start <= day <= windows[i].end,
    ensures
        day_number(year, month, 1) <= day <= month_end(year, month),
{
    let first = windows[i].start;
    lemma_civil_unique(first, year, month, of_month);
    lemma_between_months(first, year, month, of_month, year, month, month);
    assert(windows[i].end <= month_last(first));
}

// ---------------------------------------------------------------- plan

/// What a `sync all` run will do with the monitored source list.
///
/// The plan exists so no enabled source can be dropped without a word: every
/// source is either in a bucket this build can serve, or named in `notices`.
#[derive(Debug, PartialEq, Eq)]
pub struct SyncPlan {
    /// Repositories to sync, in list order.
    pub repos: Vec<String>,
    /// Monitored users to sync, in list order.
    pub users: Vec<String>,
    /// Lines the caller must print: sources this run will not serve, and why.
    pub notices: Vec<String>,
}

impl Default for SyncPlan {
    fn default() -> (plan: SyncPlan)
        ensures
            plan.repos@.len() == 0,
            plan.users@.len() == 0,
            plan.notices@.len() == 0,
    {
        SyncPlan { repos: Vec::new(), users: Vec::new(), notices: Vec::new() }
    }
}

impl SyncPlan {
    /// True when there is nothing at all to do.
    pub fn is_empty(&self) -> (yes: bool)
        ensures
            yes == (self.repos@.len() == 0 && self.users@.len() == 0),
    {
        self.repos.len() == 0 && self.users.len() == 0
    }
}

/// The enabled sources of one type among the first `n`, in list order.
pub open spec fn enabled_of(sources: Seq<MonitoredSource>, n: int, wanted: Seq<char>) -> Seq<
    Seq<char>,
>
    decreases n,
{
    if n <= 0 {
        Seq::empty()
    } else if sources[n - 1].sync_enabled && sources[n - 1].source_type@ == wanted {
        enabled_of(sources, n - 1, wanted).push(sources[n - 1].identifier@)
    } else {
        enabled_of(sources, n - 1, wanted)
    }
}

/// The source is enabled, but of a type that cannot be synced.
pub open spec fn is_unsupported(source: MonitoredSource) -> bool {
    source.sync_enabled && source.source_type@ != "repo"@ && source.source_type@ != "user"@
}

/// The notice for a source that cannot be synced.
pub open spec fn unsupported_text(source: MonitoredSource) -> Seq<char> {
    "skipping "@ + source.source_type@ + " '"@ + source.identifier@ + "': "@ + source.source_type@
        + "-scoped sync is not implemented — add the repositories or users you want covered"@
}

/// The notices for the sources that cannot be synced among the first `n`.
pub open spec fn unsupported_texts(sources: Seq<MonitoredSource>, n: int) -> Seq<Seq<char>>
    decreases n,
{
    if n <= 0 {
        Seq::empty()
    } else if is_unsupported(sources[n - 1]) {
        unsupported_texts(sources, n - 1).push(unsupported_text(sources[n - 1]))
    } else {
        unsupported_texts(sources, n - 1)
    }
}

/// The disabled sources among the first `n`.
pub open spec fn disabled_of(sources: Seq<MonitoredSource>, n: int) -> Seq<Seq<char>>
    decreases n,
{
    if n <= 0 {
        Seq::empty()
    } else if !sources[n - 1].sync_enabled {
        disabled_of(sources, n - 1).push(sources[n - 1].identifier@)
    } else {
        disabled_of(sources, n - 1)
    }
}

/// The notice that names the disabled sources.
pub open spec fn disabled_text(disabled: Seq<Seq<char>>) -> Seq<char> {
    "skipping "@ + decimal(disabled.len()) + " disabled source(s): "@ + joined(disabled, ", "@)
}

/// What to do when nothing is enabled.
pub const NOTHING_ENABLED: &'static str = "nothing enabled to sync — use `githubdw monitor add-repo` or `monitor add-user`";

/// The notices of a plan.
pub open spec fn notices_of(sources: Seq<MonitoredSource>) -> Seq<Seq<char>> {
    let n = sources.len() as int;
    let unsupported = unsupported_texts(sources, n);
    let disabled = disabled_of(sources, n);
    let named = if disabled.len() > 0 {
        unsupported.push(disabled_text(disabled))
    } else {
        unsupported
    };
    if enabled_of(sources, n, "repo"@).len() == 0 && enabled_of(sources, n, "user"@).len() == 0 {
        named.push(NOTHING_ENABLED@)
    } else {
        named
    }
}

/// Append a text to a list of texts.
fn push_line(list: &mut Vec<String>, line: String)
    ensures
        texts(final(list)@) == texts(old(list)@).push(line@),
{
    let ghost before = texts(list@);
    list.push(line);
    assert(texts(list@) =~= before.push(line@));
}

/// Build the plan for `sync all` from the monitored source list.
pub fn plan_all(sources: &Vec<MonitoredSource>) -> (plan: SyncPlan)
    ensures
        texts(plan.repos@) == enabled_of(sources@, sources@.len() as int, "repo"@),
        texts(plan.users@) == enabled_of(sources@, sources@.len() as int, "user"@),
        texts(plan.notices@) == notices_of(sources@),
{
    let mut plan = SyncPlan::default();
    let mut disabled: Vec<String> = Vec::new();
    let mut i: usize = 0;
    proof {
        reveal_strlit("repo");
        reveal_strlit("user");
        assert("repo"@[0] != "user"@[0]);
        assert(texts(plan.repos@) =~= Seq::empty());
        assert(texts(plan.users@) =~= Seq::empty());
        assert(texts(plan.notices@) =~= Seq::empty());
        assert(texts(disabled@) =~= Seq::empty());
    }
    while i < sources.len()
        invariant
            i <= sources.len(),
            "repo"@ != "user"@,
            texts(plan.repos@) == enabled_of(sources@, i as int, "repo"@),
            texts(plan.users@) == enabled_of(sources@, i as int, "user"@),
            texts(plan.notices@) == unsupported_texts(sources@, i as int),
            texts(disabled@) == disabled_of(sources@, i as int),
        decreases sources.len() - i,
    {
        let source = &sources[i];
        if !source.sync_enabled {
            push_line(&mut disabled, copy(source.identifier.as_str()));
        } else if same(source.source_type.as_str(), "repo") {
            push_line(&mut plan.repos, copy(source.identifier.as_str()));
        } else if same(source.source_type.as_str(), "user") {
            push_line(&mut plan.users, copy(source.identifier.as_str()));
        } else {
            let mut line = join3("skipping ", source.source_type.as_str(), " '");
            line.append(source.identifier.as_str());
            line.append("': ");
            line.append(source.source_type.as_str());
            line.append(
                "-scoped sync is not implemented — add the repositories or users you want covered",
            );
            push_line(&mut plan.notices, line);
        }
        i = i + 1;
    }
    assert(disabled@.len() == texts(disabled@).len());
    assert(plan.repos@.len() == texts(plan.repos@).len());
    assert(plan.users@.len() == texts(plan.users@).len());
    if disabled.len() > 0 {
        let mut line = copy("skipping ");
        push_decimal(&mut line, disabled.len() as u64);
        line.append(" disabled source(s): ");
        line.append(&join(&disabled, ", "));
        push_line(&mut plan.notices, line);
    }
    if plan.is_empty() {
        push_line(&mut plan.notices, copy(NOTHING_ENABLED));
    }
    plan
}

/// The `i`-th source is found again in its bucket.
proof fn lemma_in_bucket(sources: Seq<MonitoredSource>, n: int, i: int)
    requires
        0 <= i < n <= sources.len(),
    ensures
        sources[i].sync_enabled ==> enabled_of(sources, n, sources[i].source_type@).contains(
            sources[i].identifier@,
        ),
        is_unsupported(sources[i]) ==> unsupported_texts(sources, n).contains(
            unsupported_text(sources[i]),
        ),
        !sources[i].sync_enabled ==> disabled_of(sources, n).contains(sources[i].identifier@),
    decreases n,
{
    let wanted = sources[i].source_type@;
    if i < n - 1 {
        lemma_in_bucket(sources, n - 1, i);
        if sources[i].sync_enabled {
            let list = enabled_of(sources, n - 1, wanted);
            let k = choose|k: int| 0 <= k < list.len() && list[k] == sources[i].identifier@;
            assert(enabled_of(sources, n, wanted)[k] == list[k]);
        } else {
            let list = disabled_of(sources, n - 1);
            let k = choose|k: int| 0 <= k < list.len() && list[k] == sources[i].identifier@;
            assert(disabled_of(sources, n)[k] == list[k]);
        }
        if is_unsupported(sources[i]) {
            let list = unsupported_texts(sources, n - 1);
            let k = choose|k: int| 0 <= k < list.len() && list[k] == unsupported_text(sources[i]);
            assert(unsupported_texts(sources, n)[k] == list[k]);
        }
    } else {
        if sources[i].sync_enabled {
            assert(enabled_of(sources, n, wanted).last() == sources[i].identifier@);
        } else {
            assert(disabled_of(sources, n).last() == sources[i].identifier@);
        }
        if is_unsupported(sources[i]) {
            assert(unsupported_texts(sources, n).last() == unsupported_text(sources[i]));
        }
    }
}

/// No source is dropped without a word: an enabled repository or user is in the
/// plan, every other enabled source has a notice of its own, and a disabled one
/// is among those that the notice on disabled sources names.
pub proof fn law_no_source_is_dropped(sources: Seq<MonitoredSource>, i: int)
    requires
        0 <= i < sources.len(),
    ensures
        sources[i].sync_enabled && sources[i].source_type@ == "repo"@ ==> enabled_of(
            sources,
            sources.len() as int,
            "repo"@,
        ).contains(sources[i].identifier@),
        sources[i].sync_enabled && sources[i].source_type@ == "user"@ ==> enabled_of(
            sources,
            sources.len() as int,
            "user"@,
        ).contains(sources[i].identifier@),
        is_unsupported(sources[i]) ==> notices_of(sources).contains(unsupported_text(sources[i])),
        !sources[i].sync_enabled ==> disabled_of(sources, sources.len() as int).contains(
            sources[i].identifier@,
        ) && notices_of(sources).contains(
            disabled_text(disabled_of(sources, sources.len() as int)),
        ),
{
    let n = sources.len() as int;
    lemma_in_bucket(sources, n, i);
    let unsupported = unsupported_texts(sources, n);
    let disabled = disabled_of(sources, n);
    if is_unsupported(sources[i]) {
        let k = choose|k: int|
            0 <= k < unsupported.len() && unsupported[k] == unsupported_text(sources[i]);
        assert(notices_of(sources)[k] == unsupported[k]);
    }
    if !sources[i].sync_enabled {
        assert(notices_of(sources)[unsupported.len() as int] == disabled_text(disabled));
    }
}

/// A run without given days goes back over the last complete day where there is
/// coverage, and over the initial ninety days where there is none.
pub proof fn law_windows_without_days(has_coverage: bool, today: int)
    ensures
        has_coverage ==> window_start(None, has_coverage, today) == today - 1,
        !has_coverage ==> window_start(None, has_coverage, today) == today - 90,
{
}

/// The note on a walk that ran out of results names the user, how many matches there
/// are and how many of them are served.
pub proof fn law_a_shortfall_tells_what_is_missing(login: Seq<char>, total: int)
    ensures
        shortfall_text(login, UserRole::Author, total) == login + " ("@ + "author"@
            + "): incremental walk ran out of search results before reaching its watermark ("@
            + signed_decimal(total) + " matches, "@ + signed_decimal(1000)
            + " served per query); backfill the gap with `githubdw sync user "@ + login
            + " --days N`"@,
{
}

/// A window of more than one day is cut in two, up to eight times over.
pub proof fn law_windows_are_cut_while_they_can_be(window: Window, depth: int)
    ensures
        can_split(Some(window), depth) <==> window.start < window.end && depth < 8,
        !can_split(None, depth),
{
}

} // verus!
