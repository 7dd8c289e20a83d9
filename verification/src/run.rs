//! A sync run as a chain of states: the lock, the coverage window, the walks
//! with their cursors, the record of what was covered, and the end of the job.
//! Each state says what to do next and takes what came of it.

use vstd::prelude::*;
use crate::calendar::{Date, MAX_DAY, MIN_DAY};
use crate::clock::{local_day, utc_day, zone_known, Instant, Moment};
use crate::error::{fault_text, Error, Fault};
use crate::fetch::user_search::UserRole;
use crate::ingest::{Context, Ingest};
use crate::json::Json;
use crate::query::bare_login;
use crate::sql::{commands, extend, push_statement, Batch, Cell, Command, Statement};
use crate::storage::monitor_repository::{
    command_on, expected_owner_and_name, lemma_monitor_texts, stamps_in, touch_repo, touch_user,
    TOUCH_REPO_SQL, TOUCH_USER_SQL,
};
use crate::storage::repository::bot_login_suffix;
use crate::storage::sync_state_repository::{
    acquire_lock, advance_cursor, complete_job, completed_job, counts_fit, coverage_extent,
    cursor_cells, cursor_sql, date_of, delete_lock, fail_job, failures, find_overlapping,
    insert_lock, is_cut, is_live, last_updated_cursor, merged_count, overlapping_ranges, pairs_json,
    record_window, records_range, release_lock, start_job, EXTENT_SQL, FAIL_JOB_SQL,
    READ_CURSOR_SQL, READ_LOCK_SQL, RangeRow, START_JOB_SQL,
};
use crate::storage::time_dimension::{
    configured_core_hours, configured_timezone, core_hour, local_date_for, zone_name,
};
use crate::sync::{
    coverage_window, cursor_of, has_coverage_window, is_incremental, issues_only_note,
    issues_only_text, owner_and_name, repository_target, user_target, window_fits, window_start,
    REPOSITORY_PAGE_SIZE, SEARCH_PAGE_SIZE, SyncOptions, SyncSummary, Tally,
};
use crate::text::{
    as_slice, copy, first_index, is_first_at, lowercase, opt_str, opt_text, split_at_first,
};
use crate::walk::{
    after_item, degraded, fresh, has_room, leg_source, months_ahead, noted, onward, opening,
    opening_commands, receives, report, repository_legs, user_legs, Action, Ask, Deed, Goal, Job,
    Leg, Move, PageWalk, Request, Stand, Task, Turn,
};

verus! {

// ---------------------------------------------------------------- the course

/// What a run syncs: a repository by its lower-case name, or a user by the bare
/// login.
#[derive(Debug)]
pub enum Subject {
    Repository(String),
    User(String),
}

/// The model of what a run syncs.
pub ghost enum Theme {
    Repository(Seq<char>),
    User(Seq<char>),
}

impl View for Subject {
    type V = Theme;

    open spec fn view(&self) -> Theme {
        match *self {
            Subject::Repository(name) => Theme::Repository(name@),
            Subject::User(login) => Theme::User(login@),
        }
    }
}

/// The name under which the cursors of a run are kept.
pub open spec fn source_of(theme: Theme) -> Seq<char> {
    match theme {
        Theme::Repository(name) => name,
        Theme::User(login) => login,
    }
}

/// The key under which a run locks and reports.
pub open spec fn entity_of(theme: Theme) -> Seq<char> {
    match theme {
        Theme::Repository(name) => "repo:"@ + name,
        Theme::User(login) => "user:"@ + login,
    }
}

/// The configuration that a run goes by, as it is stored.
#[derive(Debug)]
pub struct Settings {
    pub timezone: Option<String>,
    pub core_hours_start: Option<String>,
    pub core_hours_end: Option<String>,
    pub bot_login_suffix: Option<String>,
}

/// The model of the configuration.
pub ghost struct Setup {
    pub timezone: Option<Seq<char>>,
    pub core_hours_start: Option<Seq<char>>,
    pub core_hours_end: Option<Seq<char>>,
    pub bot_login_suffix: Option<Seq<char>>,
}

impl View for Settings {
    type V = Setup;

    open spec fn view(&self) -> Setup {
        Setup {
            timezone: opt_text(self.timezone),
            core_hours_start: opt_text(self.core_hours_start),
            core_hours_end: opt_text(self.core_hours_end),
            bot_login_suffix: opt_text(self.bot_login_suffix),
        }
    }
}

/// What the items of a run are ingested with.
pub open spec fn context_of(setup: Setup) -> Context {
    Context {
        zone: zone_name(setup.timezone),
        core_hours: (
            core_hour(setup.core_hours_start, 9) as u32,
            core_hour(setup.core_hours_end, 17) as u32,
        ),
        bot_suffix: match setup.bot_login_suffix {
            Some(suffix) => suffix,
            None => "[bot]"@,
        },
    }
}

/// The fault of a configured zone that does not exist.
pub open spec fn zone_fault(setup: Setup) -> Fault {
    Fault::Config("invalid timezone '"@ + zone_name(setup.timezone) + "'"@)
}

impl Settings {
    /// What the items of a run are ingested with.
    fn ingest(&self) -> (outcome: Result<Ingest, Error>)
        ensures
            match outcome {
                Ok(ingest) => zone_known(zone_name(self@.timezone)) && ingest@ == context_of(
                    self@,
                ),
                Err(error) => !zone_known(zone_name(self@.timezone)) && error@ == zone_fault(
                    self@,
                ),
            },
    {
        match configured_timezone(as_slice(&self.timezone)) {
            Ok(timezone) => Ok(
                Ingest {
                    timezone,
                    core_hours: configured_core_hours(
                        as_slice(&self.core_hours_start),
                        as_slice(&self.core_hours_end),
                    ),
                    bot_suffix: bot_login_suffix(as_slice(&self.bot_login_suffix)),
                },
            ),
            Err(error) => Err(error),
        }
    }
}

/// What a run is about, and the moment that it is anchored to.
#[derive(Debug)]
pub struct Course {
    subject: Subject,
    entity_key: String,
    options: SyncOptions,
    settings: Settings,
    now: Instant,
}

/// The model of a course.
pub ghost struct Heading {
    pub theme: Theme,
    pub options: SyncOptions,
    pub setup: Setup,
    pub now: Moment,
}

impl View for Course {
    type V = Heading;

    closed spec fn view(&self) -> Heading {
        Heading {
            theme: self.subject@,
            options: self.options,
            setup: self.settings@,
            now: self.now@,
        }
    }
}

/// "Today" where the run takes place.
pub open spec fn today_of(heading: Heading) -> int {
    local_day(zone_name(heading.setup.timezone), heading.now)
}

/// The moment has a date in every zone, and so has the day before it.
pub open spec fn can_anchor(now: Moment) -> bool {
    MIN_DAY + 1 < utc_day(now.seconds) < MAX_DAY
}

impl Course {
    #[verifier::type_invariant]
    spec fn is_sound(self) -> bool {
        can_anchor(self.now@) && self.entity_key@ == entity_of(self.subject@)
    }

    /// The course of a repository run.
    pub fn repository(
        repository_name: &str,
        options: SyncOptions,
        settings: Settings,
        now: Instant,
    ) -> (course: Course)
        requires
            can_anchor(now@),
        ensures
            course@ == (Heading {
                theme: Theme::Repository(lowercase(repository_name@)),
                options,
                setup: settings@,
                now: now@,
            }),
    {
        let (name, entity_key) = repository_target(repository_name);
        Course { subject: Subject::Repository(name), entity_key, options, settings, now }
    }

    /// The course of a user run.
    pub fn user(login: &str, options: SyncOptions, settings: Settings, now: Instant) -> (course:
        Course)
        requires
            can_anchor(now@),
        ensures
            course@ == (Heading {
                theme: Theme::User(bare_login(login@)),
                options,
                setup: settings@,
                now: now@,
            }),
    {
        let (bare, entity_key) = user_target(login);
        Course { subject: Subject::User(bare), entity_key, options, settings, now }
    }
}

/// Can a run be anchored to the instant?
pub fn is_anchor(now: &Instant) -> (yes: bool)
    ensures
        yes == can_anchor(now@),
{
    let day: i32 = now.utc_date().day_number();
    MIN_DAY + 1 < day && day < MAX_DAY
}

// ---------------------------------------------------------------- steps

/// The course with the days that it covers.
#[derive(Debug)]
pub struct Trip {
    course: Course,
    start: Date,
    end: Date,
    covered: bool,
}

/// The model of a trip.
pub ghost struct Route {
    pub heading: Heading,
    pub start: int,
    pub end: int,
    /// There was coverage before the run.
    pub covered: bool,
}

impl View for Trip {
    type V = Route;

    closed spec fn view(&self) -> Route {
        Route {
            heading: self.course@,
            start: self.start@,
            end: self.end@,
            covered: self.covered,
        }
    }
}

impl Trip {
    #[verifier::type_invariant]
    spec fn is_sound(self) -> bool {
        self.end@ < MAX_DAY && zone_known(zone_name(self.course@.setup.timezone)) && self.end@
            == today_of(self.course@) - 1
    }
}

/// The lock is taken and the job is open.
#[derive(Debug)]
pub struct Opened {
    course: Course,
}

/// The run waits for the extent of the coverage.
#[derive(Debug)]
pub struct Measuring {
    course: Course,
}

/// The run waits for the cursor of its next walk.
#[derive(Debug)]
pub struct Choosing {
    trip: Trip,
    leg: Leg,
    rest: Option<Leg>,
    summary: SyncSummary,
}

/// The run is on a walk.
#[derive(Debug)]
pub struct Walking {
    trip: Trip,
    leg: Leg,
    rest: Option<Leg>,
    walk: PageWalk,
}

/// The run is on a walk and stores an item.
#[derive(Debug)]
pub struct Storing {
    trip: Trip,
    leg: Leg,
    rest: Option<Leg>,
    walk: PageWalk,
}

/// The run waits for the stored ranges that its window merges with.
#[derive(Debug)]
pub struct Recording {
    trip: Trip,
    summary: SyncSummary,
}

/// The run has come to its end and has to close its job.
#[derive(Debug)]
pub struct Ending {
    course: Course,
    outcome: Result<SyncSummary, Error>,
}

impl View for Opened {
    type V = Heading;

    closed spec fn view(&self) -> Heading {
        self.course@
    }
}

impl View for Measuring {
    type V = Heading;

    closed spec fn view(&self) -> Heading {
        self.course@
    }
}

/// Where a run stands between two walks.
pub ghost struct Choice {
    pub route: Route,
    pub leg: Leg,
    pub rest: Option<Leg>,
    pub tally: Tally,
}

impl View for Choosing {
    type V = Choice;

    closed spec fn view(&self) -> Choice {
        Choice { route: self.trip@, leg: self.leg, rest: self.rest, tally: self.summary@ }
    }
}

/// Where a run stands on a walk.
pub ghost struct March {
    pub route: Route,
    pub leg: Leg,
    pub rest: Option<Leg>,
    pub stand: Stand,
}

impl View for Walking {
    type V = March;

    closed spec fn view(&self) -> March {
        March { route: self.trip@, leg: self.leg, rest: self.rest, stand: self.walk@ }
    }
}

impl View for Storing {
    type V = March;

    closed spec fn view(&self) -> March {
        March { route: self.trip@, leg: self.leg, rest: self.rest, stand: self.walk@ }
    }
}

/// Where a run stands behind its walks.
pub ghost struct Harvest {
    pub route: Route,
    pub tally: Tally,
}

impl View for Recording {
    type V = Harvest;

    closed spec fn view(&self) -> Harvest {
        Harvest { route: self.trip@, tally: self.summary@ }
    }
}

/// What became of a run.
pub open spec fn fate_of(outcome: Result<SyncSummary, Error>) -> Result<Tally, Fault> {
    match outcome {
        Ok(summary) => Ok(summary@),
        Err(error) => Err(error@),
    }
}

/// Where a run stands at its end.
pub ghost struct Close {
    pub heading: Heading,
    pub fate: Result<Tally, Fault>,
}

impl View for Ending {
    type V = Close;

    closed spec fn view(&self) -> Close {
        Close { heading: self.course@, fate: fate_of(self.outcome) }
    }
}

/// The counts of a summary can be added up.
pub open spec fn is_countable(tally: Tally) -> bool {
    0 <= tally.pull_requests && 0 <= tally.issues && tally.pull_requests + tally.issues <= i64::MAX
}

impl Choosing {
    #[verifier::type_invariant]
    spec fn is_sound(self) -> bool {
        is_countable(self.summary@)
    }
}

impl Walking {
    #[verifier::type_invariant]
    spec fn is_sound(self) -> bool {
        is_countable(self.walk@.tally)
    }
}

impl Storing {
    #[verifier::type_invariant]
    spec fn is_sound(self) -> bool {
        is_countable(self.walk@.tally) && self.walk@.storing is Some
    }
}

impl Recording {
    #[verifier::type_invariant]
    spec fn is_sound(self) -> bool {
        is_countable(self.summary@)
    }
}

impl Ending {
    #[verifier::type_invariant]
    spec fn is_sound(self) -> bool {
        self.outcome is Ok ==> is_countable(self.outcome->Ok_0@)
    }
}

/// What to do next for a run.
#[derive(Debug)]
pub enum Next {
    /// Go on.
    Proceed(Opened),
    /// Read the extent of the coverage.
    ReadExtent(Statement, Measuring),
    /// Read the cursor of the next walk.
    ReadCursor(Statement, Choosing),
    /// Fetch a page.
    Fetch(Request, Walking),
    /// Store an item.
    Store(Job, Storing),
    /// Read the ranges that the window merges with.
    ReadRanges(Statement, Recording),
    /// Close the job.
    Close(Ending),
    /// Nothing: the run is over.
    Done(Result<SyncSummary, Error>),
    /// Nothing: the window of the run reaches past the calendar.
    OutOfCalendar,
}

/// The model of what to do next.
pub ghost enum Then {
    Proceed(Heading),
    ReadExtent(Command, Heading),
    ReadCursor(Command, Choice),
    Fetch(Ask, March),
    Store(Task, March),
    ReadRanges(Command, Harvest),
    Close(Close),
    Done(Result<Tally, Fault>),
    OutOfCalendar,
}

impl View for Next {
    type V = Then;

    open spec fn view(&self) -> Then {
        match *self {
            Next::Proceed(state) => Then::Proceed(state@),
            Next::ReadExtent(statement, state) => Then::ReadExtent(statement@, state@),
            Next::ReadCursor(statement, state) => Then::ReadCursor(statement@, state@),
            Next::Fetch(request, state) => Then::Fetch(request@, state@),
            Next::Store(job, state) => Then::Store(job@, state@),
            Next::ReadRanges(statement, state) => Then::ReadRanges(statement@, state@),
            Next::Close(state) => Then::Close(state@),
            Next::Done(outcome) => Then::Done(fate_of(outcome)),
            Next::OutOfCalendar => Then::OutOfCalendar,
        }
    }
}

/// Statements to run, and what to do after them.
#[derive(Debug)]
pub struct RunTurn {
    pub statements: Vec<Statement>,
    pub next: Next,
}

/// The model of a turn of a run.
#[verifier::ext_equal]
pub ghost struct Step {
    pub commands: Seq<Command>,
    pub next: Then,
}

impl View for RunTurn {
    type V = Step;

    open spec fn view(&self) -> Step {
        Step { commands: commands(self.statements@), next: self.next@ }
    }
}

/// The step with commands in front of its own.
pub open spec fn behind(first: Seq<Command>, step: Step) -> Step {
    Step { commands: first + step.commands, next: step.next }
}

/// The step without commands.
pub open spec fn idle_step(next: Then) -> Step {
    Step { commands: Seq::empty(), next }
}

fn only(next: Next) -> (turn: RunTurn)
    ensures
        turn@ == idle_step(next@),
{
    let turn = RunTurn { statements: Vec::new(), next };
    assert(turn@ =~= idle_step(next@));
    turn
}

fn put_first(statements: Vec<Statement>, turn: RunTurn) -> (joined: RunTurn)
    ensures
        joined@ == behind(commands(statements@), turn@),
{
    let mut statements = statements;
    extend(&mut statements, turn.statements);
    RunTurn { statements, next: turn.next }
}

// ---------------------------------------------------------------- the end

/// The command that closes a failed job.
pub open spec fn fail_command(heading: Heading, fault: Fault, clock: Seq<char>) -> Command {
    Command {
        sql: FAIL_JOB_SQL@,
        params: seq![
            Cell::Text(entity_of(heading.theme)),
            Cell::Text(clock),
            Cell::Text(fault_text(fault)),
        ],
    }
}

/// How many items a run reports as synced.
pub open spec fn synced_of(theme: Theme, tally: Tally) -> int {
    match theme {
        Theme::Repository(_) => tally.pull_requests + tally.issues,
        Theme::User(_) => tally.pull_requests,
    }
}

/// The run is over: the job is closed as it came out, and the lock is released.
pub open spec fn closing(heading: Heading, fate: Result<Tally, Fault>, clock: Seq<char>) -> Step {
    let entity = entity_of(heading.theme);
    match fate {
        Err(fault) => Step {
            commands: seq![fail_command(heading, fault, clock), delete_lock(entity)],
            next: Then::Done(fate),
        },
        Ok(tally) => Step {
            commands: seq![
                completed_job(
                    entity,
                    clock,
                    synced_of(heading.theme, tally),
                    tally.skipped,
                    if tally.failed.len() == 0 {
                        None
                    } else {
                        Some(pairs_json(tally.failed))
                    },
                ),
                delete_lock(entity),
            ],
            next: Then::Done(fate),
        },
    }
}

impl Subject {
    /// How many items the run reports as synced.
    fn synced(&self, summary: &SyncSummary) -> (synced: i64)
        requires
            is_countable(summary@),
        ensures
            synced == synced_of(self@, summary@),
    {
        match self {
            Subject::Repository(_) => summary.pull_requests_synced + summary.issues_synced,
            Subject::User(_) => summary.pull_requests_synced,
        }
    }
}

impl Course {
    /// Close the job and release the lock.
    fn close(self, outcome: Result<SyncSummary, Error>, clock: &str) -> (turn: RunTurn)
        requires
            outcome is Ok ==> is_countable(outcome->Ok_0@),
        ensures
            turn@ == closing(self@, fate_of(outcome), clock@),
    {
        proof {
            use_type_invariant(&self);
        }
        let mut statements: Vec<Statement> = Vec::new();
        assert(commands(statements@) =~= Seq::empty());
        match &outcome {
            Ok(summary) => {
                assert(failures(summary.failed@).len() == summary.failed@.len());
                let synced: i64 = self.subject.synced(summary);
                match complete_job(
                    self.entity_key.as_str(),
                    synced,
                    summary.skipped,
                    &summary.failed,
                    clock,
                ) {
                    Ok(statement) => push_statement(&mut statements, statement),
                    Err(error) => return only(Next::Done(Err(error))),
                }
            },
            Err(error) => {
                push_statement(
                    &mut statements,
                    fail_job(self.entity_key.as_str(), &error.message(), clock),
                );
            },
        }
        extend(&mut statements, release_lock(self.entity_key.as_str()));
        let turn = RunTurn { statements, next: Next::Done(outcome) };
        assert(turn@ =~= closing(self@, fate_of(outcome), clock@));
        turn
    }

    fn fail(self, error: Error, clock: &str) -> (turn: RunTurn)
        ensures
            turn@ == closing(self@, Err(error@), clock@),
    {
        self.close(Err(error), clock)
    }
}

// ---------------------------------------------------------------- opening

/// The command that reads the lock of a run.
pub open spec fn lock_command(heading: Heading) -> Command {
    Command { sql: READ_LOCK_SQL@, params: seq![Cell::Text(entity_of(heading.theme))] }
}

/// The command that opens the job of a run.
pub open spec fn start_command(heading: Heading, clock: Seq<char>) -> Command {
    Command {
        sql: START_JOB_SQL@,
        params: seq![Cell::Text(entity_of(heading.theme)), Cell::Text(clock)],
    }
}

/// A run begins, given the start of the lock that is there: it gives way to a
/// live one, and takes the lock and opens its job otherwise.
pub open spec fn opened(
    heading: Heading,
    existing: Option<Seq<char>>,
    at: Moment,
    clock: Seq<char>,
) -> Step {
    let entity = entity_of(heading.theme);
    match existing {
        Some(started_at) => if is_live(started_at, at) {
            idle_step(Then::Done(Err(Fault::SyncInProgress(entity))))
        } else {
            Step {
                commands: seq![
                    delete_lock(entity),
                    insert_lock(entity, clock),
                    start_command(heading, clock),
                ],
                next: Then::Proceed(heading),
            }
        },
        None => Step {
            commands: seq![insert_lock(entity, clock), start_command(heading, clock)],
            next: Then::Proceed(heading),
        },
    }
}

/// The command that reads the extent of the coverage.
pub open spec fn extent_command(heading: Heading) -> Command {
    Command { sql: EXTENT_SQL@, params: seq![Cell::Text(entity_of(heading.theme))] }
}

/// A summary of nothing.
pub open spec fn blank() -> Tally {
    Tally {
        pull_requests: 0,
        issues: 0,
        skipped: 0,
        failed: Seq::empty(),
        pages: 0,
        up_to_date: false,
        notes: Seq::empty(),
    }
}

/// The walks of a run.
pub open spec fn legs_of(heading: Heading) -> Seq<Leg> {
    match heading.theme {
        Theme::Repository(_) => (if heading.options.issues_only {
            Seq::empty()
        } else {
            seq![Leg::PullRequests]
        }) + (if heading.options.pull_requests_only {
            Seq::empty()
        } else {
            seq![Leg::Issues]
        }),
        Theme::User(_) => if heading.options.issues_only {
            Seq::empty()
        } else {
            seq![Leg::Role(UserRole::Author), Leg::Role(UserRole::Reviewer)]
        },
    }
}

/// The command that reads the cursor of a walk.
pub open spec fn cursor_command(heading: Heading, leg: Leg) -> Command {
    Command {
        sql: READ_CURSOR_SQL@,
        params: seq![Cell::Text(leg_source(leg)), Cell::Text(source_of(heading.theme))],
    }
}

/// The walks are done: a user run was a no-op where nothing was synced and
/// nothing failed. What is left is to record the window.
pub open spec fn gathered(route: Route, tally: Tally) -> Step {
    let heading = route.heading;
    idle_step(
        Then::ReadRanges(
            find_overlapping(entity_of(heading.theme), route.start, route.end),
            Harvest {
                route,
                tally: match heading.theme {
                    Theme::User(_) => Tally {
                        up_to_date: tally.pull_requests == 0 && tally.failed.len() == 0,
                        ..tally
                    },
                    Theme::Repository(_) => tally,
                },
            },
        ),
    )
}

/// The run goes on to the next of its walks, if there is one.
pub open spec fn next_leg(route: Route, legs: Seq<Leg>, tally: Tally) -> Step {
    if legs.len() == 0 {
        gathered(route, tally)
    } else {
        idle_step(
            Then::ReadCursor(
                cursor_command(route.heading, legs[0]),
                Choice {
                    route,
                    leg: legs[0],
                    rest: if legs.len() > 1 {
                        Some(legs[1])
                    } else {
                        None
                    },
                    tally,
                },
            ),
        )
    }
}

/// The route of a run, given whether there was coverage before it.
pub open spec fn route_of(heading: Heading, covered: bool) -> Route {
    Route {
        heading,
        start: window_start(heading.options.days, covered, today_of(heading)),
        end: today_of(heading) - 1,
        covered,
    }
}

/// The run sets out on its walks.
pub open spec fn set_out(heading: Heading, covered: bool) -> Step {
    if window_fits(heading.options.days, covered, today_of(heading)) {
        next_leg(route_of(heading, covered), legs_of(heading), blank())
    } else {
        idle_step(Then::OutOfCalendar)
    }
}

/// The job is open. A repository run that was given its days needs no coverage
/// to choose its window; an issues-only run has nothing to do for a user.
pub open spec fn proceeded(heading: Heading, clock: Seq<char>) -> Step {
    match heading.theme {
        Theme::User(login) => if heading.options.issues_only {
            closing(heading, Ok(noted(blank(), issues_only_text(login))), clock)
        } else if !zone_known(zone_name(heading.setup.timezone)) {
            closing(heading, Err(zone_fault(heading.setup)), clock)
        } else {
            idle_step(Then::ReadExtent(extent_command(heading), heading))
        },
        Theme::Repository(name) => if split_at_first(name, '/') is None {
            closing(heading, Err(Fault::InvalidArgument(expected_owner_and_name(name))), clock)
        } else if !zone_known(zone_name(heading.setup.timezone)) {
            closing(heading, Err(zone_fault(heading.setup)), clock)
        } else if heading.options.days is Some {
            set_out(heading, false)
        } else {
            idle_step(Then::ReadExtent(extent_command(heading), heading))
        },
    }
}

/// Whether any stored coverage is left up to the last complete day, or the
/// message that refuses it.
pub open spec fn coverage_of(
    first: Option<Seq<char>>,
    last: Option<Seq<char>>,
    last_complete: int,
) -> Result<bool, Seq<char>> {
    match (first, last) {
        (Some(first), Some(last)) => match (date_of(first), date_of(last)) {
            (Ok(from), Ok(to)) => Ok(!is_cut(from, to, last_complete)),
            (Ok(_), Err(message)) => Err(message),
            (Err(message), _) => Err(message),
        },
        _ => Ok(false),
    }
}

/// The extent of the coverage was read.
pub open spec fn measured(
    heading: Heading,
    first: Option<Seq<char>>,
    last: Option<Seq<char>>,
    clock: Seq<char>,
) -> Step {
    if !zone_known(zone_name(heading.setup.timezone)) {
        closing(heading, Err(zone_fault(heading.setup)), clock)
    } else {
        match coverage_of(first, last, today_of(heading) - 1) {
            Ok(covered) => set_out(heading, covered),
            Err(message) => closing(heading, Err(Fault::InvalidArgument(message)), clock),
        }
    }
}

impl Subject {
    fn source(&self) -> (source: &str)
        ensures
            source@ == source_of(self@),
    {
        match self {
            Subject::Repository(name) => name.as_str(),
            Subject::User(login) => login.as_str(),
        }
    }
}

impl Course {
    /// The query for the lock that may be there.
    pub fn read_lock(&self) -> (statement: Statement)
        ensures
            statement@ == lock_command(self@),
    {
        proof {
            use_type_invariant(self);
        }
        let statement = Statement::new(READ_LOCK_SQL).text(self.entity_key.as_str());
        assert(statement@ =~= lock_command(self@));
        statement
    }

    /// Begin the run, given the start of the lock that is there.
    pub fn open(self, existing: Option<&str>, at: &Instant, clock: &str) -> (turn: RunTurn)
        ensures
            turn@ == opened(self@, opt_str(existing), at@, clock@),
    {
        proof {
            use_type_invariant(&self);
        }
        match acquire_lock(self.entity_key.as_str(), existing, at, clock) {
            Err(error) => only(Next::Done(Err(error))),
            Ok(taken) => {
                let mut statements = taken;
                push_statement(&mut statements, start_job(self.entity_key.as_str(), clock));
                let ghost heading = self@;
                let turn = RunTurn { statements, next: Next::Proceed(Opened { course: self }) };
                assert(turn@ =~= opened(heading, opt_str(existing), at@, clock@));
                turn
            },
        }
    }

    fn read_extent(self) -> (turn: RunTurn)
        ensures
            turn@ == idle_step(Then::ReadExtent(extent_command(self@), self@)),
    {
        proof {
            use_type_invariant(&self);
        }
        let statement = Statement::new(EXTENT_SQL).text(self.entity_key.as_str());
        assert(statement@ =~= extent_command(self@));
        only(Next::ReadExtent(statement, Measuring { course: self }))
    }

    /// Set out on the walks.
    fn set_out(self, covered: bool, today: Date) -> (turn: RunTurn)
        requires
            zone_known(zone_name(self@.setup.timezone)),
            today@ == today_of(self@),
            today@ <= MAX_DAY,
        ensures
            turn@ == set_out(self@, covered),
    {
        if !has_coverage_window(self.options.days, covered, &today) {
            return only(Next::OutOfCalendar);
        }
        let (start, end) = coverage_window(self.options.days, covered, &today);
        let legs = match &self.subject {
            Subject::Repository(_) => repository_legs(&self.options),
            Subject::User(_) => user_legs(&self.options),
        };
        let ghost heading = self@;
        assert(legs@ =~= legs_of(heading));
        let first: Option<Leg> = if legs.len() > 0 {
            Some(legs[0])
        } else {
            None
        };
        let rest: Option<Leg> = if legs.len() > 1 {
            Some(legs[1])
        } else {
            None
        };
        let summary = SyncSummary::default();
        assert(summary@ =~= blank());
        let trip = Trip { course: self, start, end, covered };
        trip.go(first, rest, summary)
    }
}

impl Trip {
    /// Go on to the next walk, if there is one.
    fn go(self, first: Option<Leg>, rest: Option<Leg>, summary: SyncSummary) -> (turn: RunTurn)
        requires
            is_countable(summary@),
        ensures
            turn@ == (match first {
                Some(leg) => idle_step(
                    Then::ReadCursor(
                        cursor_command(self@.heading, leg),
                        Choice { route: self@, leg, rest, tally: summary@ },
                    ),
                ),
                None => gathered(self@, summary@),
            }),
    {
        match first {
            Some(leg) => {
                let statement = last_updated_cursor(
                    leg.source_type(),
                    self.course.subject.source(),
                );
                only(
                    Next::ReadCursor(statement, Choosing { trip: self, leg, rest, summary }),
                )
            },
            None => {
                proof {
                    use_type_invariant(&self.course);
                }
                let mut summary = summary;
                let ghost before = summary@;
                assert(failures(summary.failed@).len() == summary.failed@.len());
                let is_user = match &self.course.subject {
                    Subject::User(_) => true,
                    Subject::Repository(_) => false,
                };
                if is_user {
                    summary.close_user();
                    assert(summary@ =~= (Tally {
                        up_to_date: before.pull_requests == 0 && before.failed.len() == 0,
                        ..before
                    }));
                }
                let statement = overlapping_ranges(
                    self.course.entity_key.as_str(),
                    &self.start,
                    &self.end,
                );
                only(Next::ReadRanges(statement, Recording { trip: self, summary }))
            },
        }
    }
}

impl Opened {
    /// Go on with the run.
    pub fn proceed(self, clock: &str) -> (turn: RunTurn)
        ensures
            turn@ == proceeded(self@, clock@),
    {
        let course = self.course;
        proof {
            use_type_invariant(&course);
        }
        let ghost heading = course@;
        match &course.subject {
            Subject::User(login) => if course.options.issues_only {
                let mut summary = SyncSummary::default();
                assert(summary@ =~= blank());
                summary.note(issues_only_note(login.as_str()));
                assert(summary@ =~= noted(blank(), issues_only_text(login@)));
                return course.close(Ok(summary), clock);
            },
            Subject::Repository(name) => if let Err(error) = owner_and_name(name.as_str()) {
                return course.fail(error, clock);
            },
        }
        let zone = match configured_timezone(as_slice(&course.settings.timezone)) {
            Ok(zone) => zone,
            Err(error) => return course.fail(error, clock),
        };
        let by_days = match &course.subject {
            Subject::User(_) => false,
            Subject::Repository(_) => course.options.days.is_some(),
        };
        if by_days {
            let today = local_date_for(&course.now, &zone);
            proof {
                use_type_invariant(&today);
            }
            course.set_out(false, today)
        } else {
            course.read_extent()
        }
    }

    /// The lock could not be taken, or the job not be opened.
    pub fn failed(self, error: Error) -> (turn: RunTurn)
        ensures
            turn@ == idle_step(Then::Done(Err(error@))),
    {
        only(Next::Done(Err(error)))
    }
}

impl Measuring {
    /// The extent of the coverage was read.
    pub fn read(self, first: Option<String>, last: Option<String>, clock: &str) -> (turn: RunTurn)
        ensures
            turn@ == measured(self@, opt_text(first), opt_text(last), clock@),
    {
        let course = self.course;
        proof {
            use_type_invariant(&course);
        }
        let zone = match configured_timezone(as_slice(&course.settings.timezone)) {
            Ok(zone) => zone,
            Err(error) => return course.fail(error, clock),
        };
        let today = local_date_for(&course.now, &zone);
        proof {
            use_type_invariant(&today);
        }
        match coverage_extent(first, last, today.plus_days(-1)) {
            Ok(extent) => course.set_out(extent.is_some(), today),
            Err(error) => course.fail(error, clock),
        }
    }

    /// What the run was waiting for failed.
    pub fn failed(self, error: Error, clock: &str) -> (turn: RunTurn)
        ensures
            turn@ == closing(self@, Err(error@), clock@),
    {
        self.course.fail(error, clock)
    }
}

// ---------------------------------------------------------------- walks

/// The owner and the name of a repository.
pub open spec fn parts_of(source: Seq<char>) -> (Seq<char>, Seq<char>) {
    match split_at_first(source, '/') {
        Some(parts) => parts,
        None => (source, Seq::empty()),
    }
}

/// The walk that a run makes, from the cursor that was stored. A role is walked
/// incrementally where there is both coverage and a cursor, and is a backfill
/// of the window otherwise.
pub open spec fn leg_stand(
    route: Route,
    leg: Leg,
    tally: Tally,
    cursor: Option<Seq<char>>,
) -> Stand {
    let heading = route.heading;
    let source = source_of(heading.theme);
    let entity = entity_of(heading.theme);
    let context = context_of(heading.setup);
    let skip_diffs = heading.options.skip_diffs;
    match leg {
        Leg::PullRequests => fresh(
            Goal::PullRequests { owner: parts_of(source).0, name: parts_of(source).1 },
            entity,
            context,
            skip_diffs,
            tally,
            cursor,
            cursor,
            REPOSITORY_PAGE_SIZE,
            Seq::empty(),
        ),
        Leg::Issues => fresh(
            Goal::Issues {
                owner: parts_of(source).0,
                name: parts_of(source).1,
                repository: source,
            },
            entity,
            context,
            true,
            tally,
            cursor,
            cursor,
            REPOSITORY_PAGE_SIZE,
            Seq::empty(),
        ),
        Leg::Role(role) => {
            let incremental = heading.options.days is None && route.covered && cursor is Some;
            fresh(
                Goal::Search { login: source, role },
                entity,
                context,
                skip_diffs,
                tally,
                cursor,
                if incremental {
                    cursor
                } else {
                    None
                },
                SEARCH_PAGE_SIZE,
                if incremental {
                    Seq::empty()
                } else {
                    months_ahead(route.start, route.end)
                },
            )
        },
    }
}

/// The command that stores the cursor of a walk.
pub open spec fn advance_command(
    heading: Heading,
    leg: Leg,
    cursor: Option<Seq<char>>,
    clock: Seq<char>,
) -> Command {
    Command {
        sql: cursor_sql(),
        params: cursor_cells(leg_source(leg), source_of(heading.theme), cursor, clock),
    }
}

/// The list of at most one leg.
pub open spec fn remaining(rest: Option<Leg>) -> Seq<Leg> {
    match rest {
        Some(leg) => seq![leg],
        None => Seq::empty(),
    }
}

/// What a move of the walk means for the run. Only a walk that is complete
/// stores its cursor; then the run goes on to its next walk.
pub open spec fn relayed(march: March, step: Move, clock: Seq<char>) -> Step {
    let heading = march.route.heading;
    match step.deed {
        Deed::Fetch(ask) => Step { commands: step.commands, next: Then::Fetch(ask, march) },
        Deed::Store(task) => Step { commands: step.commands, next: Then::Store(task, march) },
        Deed::Failed(error) => behind(step.commands, closing(heading, Err(error@), clock)),
        Deed::Finished => behind(
            step.commands.push(
                advance_command(heading, march.leg, cursor_of(march.stand.mark), clock),
            ),
            next_leg(march.route, remaining(march.rest), march.stand.tally),
        ),
    }
}

/// The run took up a walk.
pub open spec fn chosen(choice: Choice, cursor: Option<Seq<char>>, clock: Seq<char>) -> Step {
    let stand = leg_stand(choice.route, choice.leg, choice.tally, cursor);
    relayed(
        March {
            route: choice.route,
            leg: choice.leg,
            rest: choice.rest,
            stand: opening(stand).0,
        },
        Move { commands: opening_commands(stand.goal), deed: opening(stand).1 },
        clock,
    )
}

/// The run received the `data` of a page.
pub open spec fn received(march: March, data: Json, step: Step, clock: Seq<char>) -> bool {
    exists|after: Stand, turn: Move| #[trigger]
        receives(march.stand, data, after, turn) && step == relayed(
            March { stand: after, ..march },
            turn,
            clock,
        )
}

/// Hand the move of a walk on.
fn relay(
    trip: Trip,
    leg: Leg,
    rest: Option<Leg>,
    walk: PageWalk,
    turn: Turn,
    clock: &str,
) -> (relayed_turn: RunTurn)
    requires
        is_countable(walk@.tally),
        turn@.deed is Store ==> walk@.storing is Some,
    ensures
        relayed_turn@ == relayed(
            March { route: trip@, leg, rest, stand: walk@ },
            turn@,
            clock@,
        ),
{
    let ghost march = March { route: trip@, leg, rest, stand: walk@ };
    let statements = turn.statements;
    match turn.action {
        Action::Fetch(request) => {
            let next = Next::Fetch(request, Walking { trip, leg, rest, walk });
            RunTurn { statements, next }
        },
        Action::Store(job) => {
            let next = Next::Store(job, Storing { trip, leg, rest, walk });
            RunTurn { statements, next }
        },
        Action::Failed(error) => put_first(statements, trip.course.fail(error, clock)),
        Action::Finished => {
            let mut statements = statements;
            let cursor = walk.mark.cursor();
            push_statement(
                &mut statements,
                advance_cursor(
                    leg.source_type(),
                    trip.course.subject.source(),
                    as_slice(&cursor),
                    clock,
                ),
            );
            assert(commands(statements@) == turn@.commands.push(
                advance_command(march.route.heading, leg, cursor_of(walk@.mark), clock@),
            ));
            put_first(statements, trip.go(rest, None, walk.summary))
        },
    }
}

impl Choosing {
    /// The cursor of the walk was read.
    pub fn read(self, cursor: Option<&str>, clock: &str) -> (turn: RunTurn)
        ensures
            turn@ == chosen(self@, opt_str(cursor), clock@),
    {
        proof {
            use_type_invariant(&self);
        }
        let Choosing { trip, leg, rest, summary } = self;
        proof {
            use_type_invariant(&trip);
            use_type_invariant(&trip.course);
        }
        let ingest = match trip.course.settings.ingest() {
            Ok(ingest) => ingest,
            Err(error) => return trip.course.fail(error, clock),
        };
        let source = trip.course.subject.source();
        let entity_key = trip.course.entity_key.as_str();
        let skip_diffs = trip.course.options.skip_diffs;
        let ghost stand = leg_stand(trip@, leg, summary@, opt_str(cursor));
        let mut walk = match leg {
            Leg::Role(role) => PageWalk::over_search(
                source,
                role,
                entity_key,
                cursor,
                is_incremental(trip.course.options.days, trip.covered, cursor.is_some()),
                trip.start,
                trip.end,
                ingest,
                skip_diffs,
                summary,
            ),
            Leg::PullRequests => {
                let (owner, name) = repository_parts(source);
                PageWalk::over_pull_requests(
                    &owner,
                    &name,
                    entity_key,
                    cursor,
                    ingest,
                    skip_diffs,
                    summary,
                )
            },
            Leg::Issues => {
                let (owner, name) = repository_parts(source);
                PageWalk::over_issues(
                    &owner,
                    &name,
                    source,
                    entity_key,
                    cursor,
                    ingest,
                    summary,
                )
            },
        };
        assert(walk@ == stand);
        let turn = walk.start();
        relay(trip, leg, rest, walk, turn, clock)
    }

    /// What the run was waiting for failed.
    pub fn failed(self, error: Error, clock: &str) -> (turn: RunTurn)
        ensures
            turn@ == closing(self@.route.heading, Err(error@), clock@),
    {
        self.trip.course.fail(error, clock)
    }
}

fn repository_parts(source: &str) -> (parts: (String, String))
    ensures
        parts.0@ == parts_of(source@).0,
        parts.1@ == parts_of(source@).1,
{
    match owner_and_name(source) {
        Ok(parts) => parts,
        Err(_) => (copy(source), String::new()),
    }
}

/// The walk keeps its counts.
spec fn same_counts(before: Tally, after: Tally) -> bool {
    after.pull_requests == before.pull_requests && after.issues == before.issues
}

/// A page changes no count of items, and an item is handed out only where one
/// is being stored.
proof fn lemma_receives(before: Stand, data: Json, after: Stand, turn: Move)
    requires
        receives(before, data, after, turn),
    ensures
        same_counts(before.tally, after.tally),
        turn.deed is Store ==> after.storing is Some,
{
}

impl Walking {
    /// The counts leave room for one more page and one more item.
    pub fn can_count(&self) -> (yes: bool)
        ensures
            yes == has_room(self@.stand),
    {
        self.walk.can_count()
    }

    /// A page arrived: its `data`.
    pub fn fetched(self, data: &Json, clock: &str) -> (turn: RunTurn)
        requires
            has_room(self@.stand),
        ensures
            received(self@, *data, turn@, clock@),
    {
        proof {
            use_type_invariant(&self);
        }
        let ghost march = self@;
        let Walking { trip, leg, rest, walk } = self;
        let mut walk = walk;
        let turn = walk.fetched(data);
        proof {
            lemma_receives(march.stand, *data, walk@, turn@);
        }
        relay(trip, leg, rest, walk, turn, clock)
    }

    /// A fetch failed.
    pub fn fetch_failed(self, error: Error, clock: &str) -> (turn: RunTurn)
        ensures
            turn@ == relayed(
                March { stand: degraded(self@.stand, error).0, ..self@ },
                Move { commands: Seq::empty(), deed: degraded(self@.stand, error).1 },
                clock@,
            ),
    {
        proof {
            use_type_invariant(&self);
        }
        let Walking { trip, leg, rest, walk } = self;
        let mut walk = walk;
        let turn = walk.fetch_failed(error);
        relay(trip, leg, rest, walk, turn, clock)
    }

    /// The run cannot go on.
    pub fn failed(self, error: Error, clock: &str) -> (turn: RunTurn)
        ensures
            turn@ == closing(self@.route.heading, Err(error@), clock@),
    {
        self.trip.course.fail(error, clock)
    }
}

impl Storing {
    /// The counts leave room for one more page and one more item.
    pub fn can_count(&self) -> (yes: bool)
        ensures
            yes == has_room(self@.stand),
    {
        self.walk.can_count()
    }

    /// The item is stored, or failed with a message.
    pub fn stored(self, failure: Option<&str>, clock: &str) -> (turn: RunTurn)
        requires
            has_room(self@.stand),
        ensures
            ({
                let counted = after_item(self@.stand, opt_str(failure));
                turn@ == relayed(
                    March { stand: onward(counted).0, ..self@ },
                    Move {
                        commands: seq![report(counted, self@.stand.storing->Some_0.0)],
                        deed: onward(counted).1,
                    },
                    clock@,
                )
            }),
    {
        proof {
            use_type_invariant(&self);
        }
        let Storing { trip, leg, rest, walk } = self;
        let mut walk = walk;
        let turn = walk.stored(failure);
        relay(trip, leg, rest, walk, turn, clock)
    }

    /// The run cannot go on.
    pub fn failed(self, error: Error, clock: &str) -> (turn: RunTurn)
        ensures
            turn@ == closing(self@.route.heading, Err(error@), clock@),
    {
        self.trip.course.fail(error, clock)
    }
}

// ---------------------------------------------------------------- the record

/// The command that stamps the source of a run.
pub open spec fn touch_command(theme: Theme) -> Command {
    match theme {
        Theme::Repository(name) => command_on(TOUCH_REPO_SQL@, lowercase(name)),
        Theme::User(login) => command_on(TOUCH_USER_SQL@, bare_login(login)),
    }
}

/// What recording the window means for the run.
pub open spec fn recorded(harvest: Harvest, batch: Batch) -> Step {
    let heading = harvest.route.heading;
    match batch.failure {
        None => Step {
            commands: commands(batch.statements@).push(touch_command(heading.theme)),
            next: Then::Close(Close { heading, fate: Ok(harvest.tally) }),
        },
        Some(error) => Step {
            commands: commands(batch.statements@),
            next: Then::Close(Close { heading, fate: Err(error@) }),
        },
    }
}

/// The run records the window that it covered, and never a day that was not
/// complete.
pub open spec fn records(
    harvest: Harvest,
    rows: Seq<RangeRow>,
    step: Step,
    clock: Seq<char>,
) -> bool {
    let heading = harvest.route.heading;
    exists|batch: Batch| #[trigger]
        records_range(
            batch,
            entity_of(heading.theme),
            harvest.route.start,
            harvest.route.end,
            harvest.route.end,
            synced_of(heading.theme, harvest.tally),
            rows,
            clock,
        ) && step == recorded(harvest, batch)
}

impl Recording {
    /// Does the item count of the merged range stay within its type?
    pub fn can_record(&self, rows: &Vec<RangeRow>) -> (yes: bool)
        ensures
            yes == counts_fit(
                rows@,
                synced_of(self@.route.heading.theme, self@.tally),
            ),
    {
        proof {
            use_type_invariant(self);
        }
        let synced: i64 = self.trip.course.subject.synced(&self.summary);
        let mut total: i64 = synced;
        let mut i: usize = 0;
        while i < rows.len()
            invariant
                i <= rows@.len(),
                synced == synced_of(self@.route.heading.theme, self@.tally),
                total == merged_count(rows@, i as int, synced as int),
                forall|n: int|
                    0 <= n <= i ==> i64::MIN <= #[trigger] merged_count(rows@, n, synced as int)
                        <= i64::MAX,
            decreases rows@.len() - i,
        {
            match total.checked_add(rows[i].item_count) {
                Some(sum) => {
                    total = sum;
                },
                None => {
                    assert(!(i64::MIN <= merged_count(rows@, i + 1, synced as int) <= i64::MAX));
                    return false;
                },
            }
            i = i + 1;
        }
        true
    }

    /// The ranges that the window merges with were read.
    pub fn read(self, rows: &Vec<RangeRow>, clock: &str) -> (turn: RunTurn)
        requires
            counts_fit(rows@, synced_of(self@.route.heading.theme, self@.tally)),
        ensures
            records(self@, rows@, turn@, clock@),
    {
        proof {
            use_type_invariant(&self);
        }
        let ghost harvest = self@;
        let Recording { trip, summary } = self;
        proof {
            use_type_invariant(&trip.course);
        }
        let synced: i64 = trip.course.subject.synced(&summary);
        let batch = record_window(
            trip.course.entity_key.as_str(),
            trip.start,
            trip.end,
            synced,
            trip.end,
            rows,
            clock,
        );
        let ghost stored = batch;
        let mut statements = batch.statements;
        let outcome = match batch.failure {
            Some(error) => Err(error),
            None => {
                let touch = match &trip.course.subject {
                    Subject::Repository(name) => touch_repo(name.as_str()),
                    Subject::User(login) => touch_user(login.as_str()),
                };
                push_statement(&mut statements, touch);
                Ok(summary)
            },
        };
        let turn = RunTurn {
            statements,
            next: Next::Close(Ending { course: trip.course, outcome }),
        };
        assert(turn@ =~= recorded(harvest, stored));
        assert(records_range(
            stored,
            entity_of(harvest.route.heading.theme),
            harvest.route.start,
            harvest.route.end,
            harvest.route.end,
            synced_of(harvest.route.heading.theme, harvest.tally),
            rows@,
            clock@,
        ));
        turn
    }

    /// What the run was waiting for failed.
    pub fn failed(self, error: Error, clock: &str) -> (turn: RunTurn)
        ensures
            turn@ == closing(self@.route.heading, Err(error@), clock@),
    {
        self.trip.course.fail(error, clock)
    }
}

impl Ending {
    /// Close the job and release the lock.
    pub fn close(self, clock: &str) -> (turn: RunTurn)
        ensures
            turn@ == closing(self@.heading, self@.fate, clock@),
    {
        proof {
            use_type_invariant(&self);
        }
        let Ending { course, outcome } = self;
        course.close(outcome, clock)
    }

    /// The record could not be stored.
    pub fn failed(self, error: Error, clock: &str) -> (turn: RunTurn)
        ensures
            turn@ == closing(self@.heading, Err(error@), clock@),
    {
        self.course.fail(error, clock)
    }
}

/// What a failure in front of the next thing to do means for the run: before
/// the job is open and after it is closed there is nothing to clean up, and in
/// between the job fails and the lock is released.
pub open spec fn broken(next: Then, fault: Fault, clock: Seq<char>) -> Step {
    match next {
        Then::Proceed(_) => idle_step(Then::Done(Err(fault))),
        Then::ReadExtent(_, heading) => closing(heading, Err(fault), clock),
        Then::ReadCursor(_, choice) => closing(choice.route.heading, Err(fault), clock),
        Then::Fetch(_, march) => closing(march.route.heading, Err(fault), clock),
        Then::Store(_, march) => closing(march.route.heading, Err(fault), clock),
        Then::ReadRanges(_, harvest) => closing(harvest.route.heading, Err(fault), clock),
        Then::Close(close) => closing(close.heading, Err(fault), clock),
        Then::Done(_) => idle_step(Then::Done(Err(fault))),
        Then::OutOfCalendar => idle_step(Then::OutOfCalendar),
    }
}

impl Next {
    /// The statements in front of the next thing to do failed.
    pub fn failed(self, error: Error, clock: &str) -> (turn: RunTurn)
        ensures
            turn@ == broken(self@, error@, clock@),
    {
        match self {
            Next::Proceed(state) => state.failed(error),
            Next::ReadExtent(_, state) => state.failed(error, clock),
            Next::ReadCursor(_, state) => state.failed(error, clock),
            Next::Fetch(_, state) => state.failed(error, clock),
            Next::Store(_, state) => state.failed(error, clock),
            Next::ReadRanges(_, state) => state.failed(error, clock),
            Next::Close(state) => state.failed(error, clock),
            Next::Done(_) => only(Next::Done(Err(error))),
            Next::OutOfCalendar => only(Next::OutOfCalendar),
        }
    }
}

// ---------------------------------------------------------------- laws

/// A run that is over has released its lock, whatever came of it.
pub proof fn law_the_end_releases_the_lock(
    heading: Heading,
    fate: Result<Tally, Fault>,
    clock: Seq<char>,
)
    ensures
        closing(heading, fate, clock).commands.last() == delete_lock(entity_of(heading.theme)),
        closing(heading, fate, clock).next == Then::Done(fate),
{
}

/// A failure on the way fails the job and releases the lock, and does nothing
/// else: no cursor moves and no coverage is recorded.
pub proof fn law_a_broken_run_cleans_up(next: Then, fault: Fault, clock: Seq<char>)
    requires
        !(next is Proceed || next is Done || next is OutOfCalendar),
    ensures
        exists|heading: Heading|
            broken(next, fault, clock) == (Step {
                commands: seq![
                    #[trigger] fail_command(heading, fault, clock),
                    delete_lock(entity_of(heading.theme)),
                ],
                next: Then::Done(Err(fault)),
            }),
{
    let heading = match next {
        Then::ReadExtent(_, heading) => heading,
        Then::ReadCursor(_, choice) => choice.route.heading,
        Then::Fetch(_, march) => march.route.heading,
        Then::Store(_, march) => march.route.heading,
        Then::ReadRanges(_, harvest) => harvest.route.heading,
        Then::Close(close) => close.heading,
        _ => arbitrary(),
    };
    assert(broken(next, fault, clock) == (Step {
        commands: seq![
            fail_command(heading, fault, clock),
            delete_lock(entity_of(heading.theme)),
        ],
        next: Then::Done(Err(fault)),
    }));
}

/// A live lock is left alone: the run ends without a single command.
pub proof fn law_a_busy_source_is_left_alone(
    heading: Heading,
    started_at: Seq<char>,
    at: Moment,
    clock: Seq<char>,
)
    requires
        is_live(started_at, at),
    ensures
        opened(heading, Some(started_at), at, clock) == (Step {
            commands: Seq::empty(),
            next: Then::Done(Err(Fault::SyncInProgress(entity_of(heading.theme)))),
        }),
{
}

/// Only a complete walk moves its cursor: as long as there is a page to fetch or
/// an item to store, the run does what the walk asks for and nothing more.
pub proof fn law_the_cursor_waits_for_the_walk(march: March, step: Move, clock: Seq<char>)
    requires
        step.deed is Fetch || step.deed is Store,
    ensures
        relayed(march, step, clock).commands == step.commands,
{
}

/// Coverage is recorded only behind the last walk, and only if that walk is
/// complete.
pub proof fn law_coverage_waits_for_the_walks(march: March, step: Move, clock: Seq<char>)
    requires
        relayed(march, step, clock).next is ReadRanges,
    ensures
        step.deed is Finished,
        march.rest is None,
{
}

/// A run never claims the day that is still running where it takes place.
pub proof fn law_runs_claim_complete_days(heading: Heading, covered: bool)
    ensures
        route_of(heading, covered).end < today_of(heading),
        route_of(heading, covered).start <= route_of(heading, covered).end,
{
}

/// A run walks what it is asked for, each once: the pull requests and the issues of
/// a repository, unless the others alone are wanted, and what a user opened and
/// reviewed, unless issues alone are wanted.
pub proof fn law_a_run_walks_what_is_asked_for(heading: Heading, leg: Leg)
    ensures
        legs_of(heading).contains(leg) <==> (match leg {
            Leg::PullRequests => heading.theme is Repository && !heading.options.issues_only,
            Leg::Issues => heading.theme is Repository && !heading.options.pull_requests_only,
            Leg::Role(_) => heading.theme is User && !heading.options.issues_only,
        }),
        legs_of(heading).no_duplicates(),
{
    let legs = legs_of(heading);
    match heading.theme {
        Theme::Repository(_) => {
            if !heading.options.issues_only {
                assert(legs[0] == Leg::PullRequests);
            }
            if !heading.options.pull_requests_only {
                assert(legs.last() == Leg::Issues);
            }
        },
        Theme::User(_) => {
            if !heading.options.issues_only {
                assert(legs[0] == Leg::Role(UserRole::Author));
                assert(legs[1] == Leg::Role(UserRole::Reviewer));
            }
        },
    }
}

/// Runs of different sources never share a lock, a job or a range.
pub proof fn law_runs_are_told_apart(left: Theme, right: Theme)
    requires
        left != right,
    ensures
        entity_of(left) != entity_of(right),
{
    reveal_strlit("repo:");
    reveal_strlit("user:");
    let a = entity_of(left);
    let b = entity_of(right);
    assert(a.skip(5) =~= source_of(left));
    assert(b.skip(5) =~= source_of(right));
    assert(a[0] == (if left is Repository {
        'r'
    } else {
        'u'
    }));
    assert(b[0] == (if right is Repository {
        'r'
    } else {
        'u'
    }));
}

/// A run that begins takes the lock of its own source and opens its job; a stale
/// lock goes first.
pub proof fn law_a_run_takes_its_own_lock(
    heading: Heading,
    existing: Option<Seq<char>>,
    at: Moment,
    clock: Seq<char>,
)
    requires
        existing is Some ==> !is_live(existing->Some_0, at),
    ensures
        ({
            let step = opened(heading, existing, at, clock);
            let entity = entity_of(heading.theme);
            &&& step.next == Then::Proceed(heading)
            &&& existing is Some ==> step.commands.len() == 3 && step.commands[0] == delete_lock(
                entity,
            )
            &&& existing is None ==> step.commands.len() == 2
            &&& step.commands[step.commands.len() - 2] == insert_lock(entity, clock)
            &&& step.commands.last().sql
                == "INSERT INTO sync_jobs (entity_key, status, started_at)
         VALUES (?1, 'running', ?2)
         ON CONFLICT (entity_key) DO UPDATE SET
             status = 'running', started_at = excluded.started_at,
             completed_at = NULL, synced = 0, skipped = 0,
             failed_items = NULL, error = NULL"@
            &&& step.commands.last().params == seq![Cell::Text(entity), Cell::Text(clock)]
        }),
{
}

/// A job is closed as it came out: with what was synced, skipped and failed, or
/// with the message that broke it off.
pub proof fn law_a_job_is_closed_as_it_came_out(
    heading: Heading,
    tally: Tally,
    fault: Fault,
    clock: Seq<char>,
)
    ensures
        closing(heading, Ok(tally), clock).commands[0] == completed_job(
            entity_of(heading.theme),
            clock,
            match heading.theme {
                Theme::Repository(_) => tally.pull_requests + tally.issues,
                Theme::User(_) => tally.pull_requests,
            },
            tally.skipped,
            if tally.failed.len() == 0 {
                None
            } else {
                Some(pairs_json(tally.failed))
            },
        ),
        closing(heading, Err(fault), clock).commands[0] == (Command {
            sql: "UPDATE sync_jobs SET status = 'failed', completed_at = ?2, error = ?3
         WHERE entity_key = ?1"@,
            params: seq![
                Cell::Text(entity_of(heading.theme)),
                Cell::Text(clock),
                Cell::Text(fault_text(fault)),
            ],
        }),
{
}

/// The cursor that a walk leaves behind is the one that the next walk of its kind
/// reads: under the same source type and the same source.
pub proof fn law_a_cursor_is_read_where_it_was_left(
    heading: Heading,
    leg: Leg,
    cursor: Option<Seq<char>>,
    clock: Seq<char>,
)
    ensures
        cursor_command(heading, leg).params.len() == 2,
        advance_command(heading, leg, cursor, clock).params[0] == cursor_command(
            heading,
            leg,
        ).params[0],
        advance_command(heading, leg, cursor, clock).params[1] == cursor_command(
            heading,
            leg,
        ).params[1],
        cursor_command(heading, leg).params[0] == Cell::Text(
            match leg {
                Leg::PullRequests => "repo"@,
                Leg::Issues => "repo_issues"@,
                Leg::Role(UserRole::Author) => "user"@,
                Leg::Role(UserRole::Reviewer) => "user_reviews"@,
            },
        ),
{
}

/// A walk is of the source of its run and goes on from the cursor that was stored, in
/// pages of twenty-five.
/// A role of a user is walked from its cursor where the run has no days of its own
/// and there is coverage, and over the months of the window otherwise.
pub proof fn law_a_walk_is_of_the_source_of_its_run(
    route: Route,
    leg: Leg,
    tally: Tally,
    cursor: Option<Seq<char>>,
    owner: Seq<char>,
    name: Seq<char>,
)
    requires
        leg is Role || (source_of(route.heading.theme) == owner + "/"@ + name && !owner.contains(
            '/',
        )),
    ensures
        ({
            let stand = leg_stand(route, leg, tally, cursor);
            &&& stand.entity_key == entity_of(route.heading.theme)
            &&& stand.tally == tally
            &&& stand.mark.newest == cursor
            &&& stand.page_size == 25
            &&& match leg {
                Leg::PullRequests => {
                    &&& stand.goal == Goal::PullRequests { owner, name }
                    &&& stand.stop == cursor
                    &&& stand.skip_diffs == route.heading.options.skip_diffs
                },
                Leg::Issues => {
                    &&& stand.goal == Goal::Issues {
                        owner,
                        name,
                        repository: source_of(route.heading.theme),
                    }
                    &&& stand.stop == cursor
                },
                Leg::Role(role) => {
                    &&& stand.goal == Goal::Search { login: source_of(route.heading.theme), role }
                    &&& stand.skip_diffs == route.heading.options.skip_diffs
                    &&& if route.heading.options.days is None && route.covered && cursor is Some {
                        stand.stop == cursor && stand.pending.len() == 0
                    } else {
                        stand.stop is None && stand.pending == months_ahead(
                            route.start,
                            route.end,
                        )
                    }
                },
            }
        }),
{
    if !(leg is Role) {
        reveal_strlit("/");
        let source = source_of(route.heading.theme);
        let at = owner.len() as int;
        assert(source[at] == '/');
        assert forall|k: int| 0 <= k < at implies source[k] != '/' by {
            assert(source[k] == owner[k]);
            assert(owner.contains(owner[k]));
        }
        assert(is_first_at(source, '/', at));
        let found = first_index(source, '/');
        assert(is_first_at(source, '/', found));
        assert(found == at);
        assert(source.take(at) =~= owner);
        assert(source.skip(at + 1) =~= name);
    }
}

/// What a run stamps is the monitored source that it synced.
pub proof fn law_a_run_stamps_its_own_source(theme: Theme)
    ensures
        theme matches Theme::Repository(name) ==> stamps_in(
            touch_command(theme),
            "monitored_repos"@,
            "repo_key"@,
        ) && touch_command(theme).params == seq![Cell::Text(lowercase(name))],
        theme matches Theme::User(login) ==> stamps_in(
            touch_command(theme),
            "monitored_users"@,
            "login"@,
        ) && touch_command(theme).params == seq![Cell::Text(bare_login(login))],
{
    lemma_monitor_texts();
}

} // verus!
