//! Ingestion of one fetched item: the statements that store it, in order, up to
//! the first timestamp that cannot be read.

use vstd::prelude::*;
use crate::clock::{local_day, local_hour, Timezone};
use crate::error::Error;
use crate::fetch::issues::{IssueCommentData, IssueData, LabelData};
use crate::fetch::pull_requests::{
    ActorReference, CheckRunData, ConversationCommentData, FileDiffData, FilePatch,
    PullRequestData, ReviewCommentData, ReviewData,
};
use crate::number::{push_signed, signed_decimal};
use crate::sql::{
    commands, extend, flag_cell, push_statement, text_cell, Batch, Cell, Command, Statement,
};
use crate::storage::issue_repository::{
    issue_command, label_command, milestone_command, replace_issue_assignees, replace_issue_labels,
    replace_links, upsert_issue, upsert_label, upsert_milestone, DELETE_ASSIGNEES_SQL,
    DELETE_LABELS_SQL, INSERT_ASSIGNEE_SQL, INSERT_LABEL_SQL,
};
use crate::storage::repository::{
    account_key, check_run_command, ensure_entity, ensure_ghost_entity, entity_command,
    file_diff_command, ghost_command, is_bot_account, issue_comment_command, pull_request_sql,
    review_command,
    review_comment_command, set_file_diff_patch, set_patch_command,
    upsert_check_run, upsert_file_diff, upsert_issue_comment, upsert_pull_request, upsert_review,
    upsert_review_comment, PullRequestRow, GHOST_KEY,
};
use crate::storage::time_dimension::{
    ensure_keys_for_timestamp, hour_key, key_rows, local_date_key, timestamp_moment, LocalKeys,
};
use crate::text::{as_slice, copy, join3, opt_str, opt_text, texts};

verus! {

// ---------------------------------------------------------------- scripts

/// Commands to run in order, and the message that then refuses the item, if
/// any.
#[verifier::ext_equal]
pub ghost struct Script {
    pub commands: Seq<Command>,
    pub refusal: Option<Seq<char>>,
}

/// The script that does nothing.
pub open spec fn idle() -> Script {
    Script { commands: Seq::empty(), refusal: None }
}

/// The script of one command.
pub open spec fn just(command: Command) -> Script {
    Script { commands: seq![command], refusal: None }
}

/// One script behind another. A refusal ends it.
pub open spec fn chained(first: Script, second: Script) -> Script {
    if first.refusal is Some {
        first
    } else {
        Script { commands: first.commands + second.commands, refusal: second.refusal }
    }
}

/// The message of a batch's failure.
pub open spec fn refusal_of(failure: Option<Error>) -> Option<Seq<char>> {
    match failure {
        Some(Error::InvalidArgument(message)) => Some(message@),
        _ => None,
    }
}

/// The batch can only fail by refusing its input.
pub open spec fn only_refuses(batch: Batch) -> bool {
    batch.failure is None || batch.failure->Some_0 is InvalidArgument
}

/// The script that a batch plays.
pub open spec fn script_of(batch: Batch) -> Script {
    Script { commands: commands(batch.statements@), refusal: refusal_of(batch.failure) }
}

/// The batch plays exactly this script.
pub open spec fn plays(batch: Batch, script: Script) -> bool {
    only_refuses(batch) && script_of(batch) == script
}

/// Chaining is associative.
proof fn lemma_chained_associative(a: Script, b: Script, c: Script)
    ensures
        chained(chained(a, b), c) == chained(a, chained(b, c)),
{
    assert(chained(chained(a, b), c) =~= chained(a, chained(b, c)));
}

/// Chaining with the script that does nothing changes nothing.
proof fn lemma_chained_idle(a: Script)
    ensures
        chained(a, idle()) == a,
        chained(idle(), a) == a,
{
    assert(chained(a, idle()) =~= a);
    assert(chained(idle(), a) =~= a);
}

/// A batch that has run nothing yet.
fn empty_batch() -> (batch: Batch)
    ensures
        plays(batch, idle()),
{
    let batch = Batch { statements: Vec::new(), failure: None };
    assert(script_of(batch) =~= idle());
    batch
}

/// Append one statement, unless the batch has failed.
fn step(batch: &mut Batch, statement: Statement)
    requires
        only_refuses(*old(batch)),
    ensures
        plays(*final(batch), chained(script_of(*old(batch)), just(statement@))),
{
    if batch.failure.is_none() {
        push_statement(&mut batch.statements, statement);
        assert(script_of(*batch) =~= chained(script_of(*old(batch)), just(statement@)));
    }
}

// ---------------------------------------------------------------- context

/// What every item of a run is ingested with.
#[derive(Debug)]
pub struct Ingest {
    pub timezone: Timezone,
    pub core_hours: (u32, u32),
    pub bot_suffix: String,
}

/// The model of the context.
pub ghost struct Context {
    pub zone: Seq<char>,
    pub core_hours: (u32, u32),
    pub bot_suffix: Seq<char>,
}

impl View for Ingest {
    type V = Context;

    open spec fn view(&self) -> Context {
        Context {
            zone: self.timezone@,
            core_hours: self.core_hours,
            bot_suffix: self.bot_suffix@,
        }
    }
}

/// The commands that ensure the entity of an actor; of the deleted account
/// where there is none.
pub open spec fn actor_script(actor: Option<ActorReference>, context: Context) -> Script {
    match actor {
        Some(actor) => just(
            entity_command(
                actor.login@,
                is_bot_account(actor.login@, actor.actor_type@, context.bot_suffix),
            ),
        ),
        None => just(ghost_command()),
    }
}

/// The entity key of an actor.
pub open spec fn actor_key(actor: Option<ActorReference>, context: Context) -> Seq<char> {
    match actor {
        Some(actor) => account_key(
            actor.login@,
            is_bot_account(actor.login@, actor.actor_type@, context.bot_suffix),
        ),
        None => GHOST_KEY@,
    }
}

/// The commands that seed the dimensions for a timestamp.
pub open spec fn stamp_script(timestamp: Seq<char>, context: Context) -> Script {
    match timestamp_moment(timestamp, context.zone) {
        Ok(moment) => Script {
            commands: key_rows(context.zone, moment, context.core_hours),
            refusal: None,
        },
        Err(message) => Script { commands: Seq::empty(), refusal: Some(message) },
    }
}

/// The date key of a timestamp.
pub open spec fn stamp_date(timestamp: Seq<char>, context: Context) -> Seq<char> {
    local_date_key(local_day(context.zone, timestamp_moment(timestamp, context.zone)->Ok_0))
}

/// The time key of a timestamp.
pub open spec fn stamp_time(timestamp: Seq<char>, context: Context) -> Seq<char> {
    hour_key(local_hour(context.zone, timestamp_moment(timestamp, context.zone)->Ok_0))
}

/// The commands that seed the dimensions for an optional timestamp.
pub open spec fn opt_stamp_script(timestamp: Option<Seq<char>>, context: Context) -> Script {
    match timestamp {
        Some(timestamp) => stamp_script(timestamp, context),
        None => idle(),
    }
}

/// The date key of an optional timestamp.
pub open spec fn opt_stamp_date(timestamp: Option<Seq<char>>, context: Context) -> Option<
    Seq<char>,
> {
    match timestamp {
        Some(timestamp) => Some(stamp_date(timestamp, context)),
        None => None,
    }
}

/// The time key of an optional timestamp.
pub open spec fn opt_stamp_time(timestamp: Option<Seq<char>>, context: Context) -> Option<
    Seq<char>,
> {
    match timestamp {
        Some(timestamp) => Some(stamp_time(timestamp, context)),
        None => None,
    }
}

/// The keys are those of the timestamp.
pub open spec fn are_stamp_keys(keys: LocalKeys, timestamp: Seq<char>, context: Context) -> bool {
    keys.date_key@ == stamp_date(timestamp, context) && keys.time_key@ == stamp_time(
        timestamp,
        context,
    )
}

impl Ingest {
    /// Ensure the entity of an actor and give its key.
    fn resolve_actor(&self, batch: &mut Batch, actor: &Option<ActorReference>) -> (key: String)
        requires
            only_refuses(*old(batch)),
        ensures
            key@ == actor_key(*actor, self@),
            plays(*final(batch), chained(script_of(*old(batch)), actor_script(*actor, self@))),
    {
        let (key, statement) = match actor {
            Some(actor) => ensure_entity(actor, self.bot_suffix.as_str()),
            None => ensure_ghost_entity(),
        };
        step(batch, statement);
        key
    }

    /// Seed the dimensions for a timestamp and give its keys, unless the batch
    /// has failed or fails here.
    fn stamp(&self, batch: &mut Batch, timestamp: &str) -> (keys: Option<LocalKeys>)
        requires
            only_refuses(*old(batch)),
        ensures
            plays(*final(batch), chained(script_of(*old(batch)), stamp_script(timestamp@, self@))),
            match keys {
                Some(keys) => final(batch).failure is None && are_stamp_keys(
                    keys,
                    timestamp@,
                    self@,
                ),
                None => final(batch).failure is Some,
            },
    {
        if batch.failure.is_some() {
            return None;
        }
        let ghost before = script_of(*batch);
        match ensure_keys_for_timestamp(timestamp, &self.timezone, self.core_hours) {
            Ok((keys, statements)) => {
                extend(&mut batch.statements, statements);
                assert(script_of(*batch) =~= chained(before, stamp_script(timestamp@, self@)));
                Some(keys)
            },
            Err(error) => {
                batch.failure = Some(error);
                assert(script_of(*batch) =~= chained(before, stamp_script(timestamp@, self@)));
                None
            },
        }
    }

    /// Seed the dimensions for an optional timestamp.
    fn stamp_opt(&self, batch: &mut Batch, timestamp: &Option<String>) -> (keys: Option<
        Option<LocalKeys>,
    >)
        requires
            only_refuses(*old(batch)),
        ensures
            plays(
                *final(batch),
                chained(script_of(*old(batch)), opt_stamp_script(opt_text(*timestamp), self@)),
            ),
            match keys {
                Some(Some(keys)) => final(batch).failure is None && *timestamp is Some
                    && are_stamp_keys(keys, (*timestamp)->Some_0@, self@),
                Some(None) => final(batch).failure is None && *timestamp is None,
                None => final(batch).failure is Some,
            },
    {
        match timestamp {
            Some(timestamp) => match self.stamp(batch, timestamp.as_str()) {
                Some(keys) => Some(Some(keys)),
                None => None,
            },
            None => {
                proof {
                    lemma_chained_idle(script_of(*batch));
                }
                if batch.failure.is_some() {
                    None
                } else {
                    Some(None)
                }
            },
        }
    }
}

// ---------------------------------------------------------------- pull requests

/// The script that stores a review: none while it is pending.
pub open spec fn review_script(review: ReviewData, pr_key: Seq<char>, context: Context) -> Script {
    match opt_text(review.submitted_at) {
        Some(submitted_at) => chained(
            chained(actor_script(review.author, context), stamp_script(submitted_at, context)),
            just(
                review_command(
                    review.id@,
                    pr_key,
                    actor_key(review.author, context),
                    review.state@,
                    opt_text(review.body),
                    submitted_at,
                    stamp_date(submitted_at, context),
                    stamp_time(submitted_at, context),
                ),
            ),
        ),
        None => idle(),
    }
}

/// The script that stores the first `n` reviews.
pub open spec fn reviews_script(
    reviews: Seq<ReviewData>,
    n: int,
    pr_key: Seq<char>,
    context: Context,
) -> Script
    decreases n,
{
    if n <= 0 {
        idle()
    } else {
        chained(
            reviews_script(reviews, n - 1, pr_key, context),
            review_script(reviews[n - 1], pr_key, context),
        )
    }
}

/// The script that stores a review comment.
pub open spec fn review_comment_script(
    comment: ReviewCommentData,
    pr_key: Seq<char>,
    context: Context,
) -> Script {
    chained(
        chained(
            actor_script(comment.author, context),
            stamp_script(comment.created_at@, context),
        ),
        just(
            review_comment_command(
                comment.id@,
                pr_key,
                actor_key(comment.author, context),
                opt_text(comment.in_reply_to),
                opt_text(comment.path),
                comment.line,
                opt_text(comment.body),
                comment.created_at@,
                stamp_date(comment.created_at@, context),
                stamp_time(comment.created_at@, context),
            ),
        ),
    )
}

/// The script that stores the first `n` review comments.
pub open spec fn review_comments_script(
    comments: Seq<ReviewCommentData>,
    n: int,
    pr_key: Seq<char>,
    context: Context,
) -> Script
    decreases n,
{
    if n <= 0 {
        idle()
    } else {
        chained(
            review_comments_script(comments, n - 1, pr_key, context),
            review_comment_script(comments[n - 1], pr_key, context),
        )
    }
}

/// The script that stores a comment on a pull request or an issue.
pub open spec fn comment_script(
    id: Seq<char>,
    parent_type: Seq<char>,
    parent_key: Seq<char>,
    author: Option<ActorReference>,
    body: Option<Seq<char>>,
    created_at: Seq<char>,
    context: Context,
) -> Script {
    chained(
        chained(actor_script(author, context), stamp_script(created_at, context)),
        just(
            issue_comment_command(
                id,
                parent_type,
                parent_key,
                actor_key(author, context),
                None,
                body,
                created_at,
                stamp_date(created_at, context),
                stamp_time(created_at, context),
            ),
        ),
    )
}

/// The script that stores the first `n` conversation comments.
pub open spec fn conversation_script(
    comments: Seq<ConversationCommentData>,
    n: int,
    pr_key: Seq<char>,
    context: Context,
) -> Script
    decreases n,
{
    if n <= 0 {
        idle()
    } else {
        chained(
            conversation_script(comments, n - 1, pr_key, context),
            comment_script(
                comments[n - 1].id@,
                "pull_request"@,
                pr_key,
                comments[n - 1].author,
                opt_text(comments[n - 1].body),
                comments[n - 1].created_at@,
                context,
            ),
        )
    }
}

/// The script that stores the first `n` check runs.
pub open spec fn checks_script(
    checks: Seq<CheckRunData>,
    n: int,
    pr_key: Seq<char>,
    head_sha: Seq<char>,
) -> Script
    decreases n,
{
    if n <= 0 {
        idle()
    } else {
        chained(
            checks_script(checks, n - 1, pr_key, head_sha),
            just(
                check_run_command(
                    checks[n - 1].id@,
                    pr_key,
                    head_sha,
                    checks[n - 1].name@,
                    checks[n - 1].status@,
                    opt_text(checks[n - 1].conclusion),
                    opt_text(checks[n - 1].started_at),
                    opt_text(checks[n - 1].completed_at),
                ),
            ),
        )
    }
}

/// The script that stores the check runs of the head commit: none without one.
pub open spec fn head_checks_script(pull_request: PullRequestData, pr_key: Seq<char>) -> Script {
    match opt_text(pull_request.head_sha) {
        Some(head_sha) => checks_script(
            pull_request.check_runs@,
            pull_request.check_runs@.len() as int,
            pr_key,
            head_sha,
        ),
        None => idle(),
    }
}

/// The script that stores the first `n` changed files.
pub open spec fn files_script(
    files: Seq<FileDiffData>,
    n: int,
    pr_key: Seq<char>,
    repo_key: Seq<char>,
) -> Script
    decreases n,
{
    if n <= 0 {
        idle()
    } else {
        chained(
            files_script(files, n - 1, pr_key, repo_key),
            just(
                file_diff_command(
                    pr_key,
                    repo_key,
                    files[n - 1].path@,
                    None,
                    files[n - 1].change_type@,
                    None,
                    files[n - 1].additions as int,
                    files[n - 1].deletions as int,
                ),
            ),
        )
    }
}

/// The optional entity of whoever merged the pull request.
pub open spec fn merger_script(pull_request: PullRequestData, context: Context) -> Script {
    match pull_request.merged_by {
        Some(_) => actor_script(pull_request.merged_by, context),
        None => idle(),
    }
}

/// The optional entity key of whoever merged the pull request.
pub open spec fn merger_key(pull_request: PullRequestData, context: Context) -> Option<Seq<char>> {
    match pull_request.merged_by {
        Some(_) => Some(actor_key(pull_request.merged_by, context)),
        None => None,
    }
}

/// The number of comments on a pull request.
pub open spec fn comments_on(pull_request: PullRequestData) -> i64 {
    (pull_request.conversation_comments@.len() + pull_request.review_comments@.len()) as i64
}

/// The command that stores the row of a pull request under its keys.
pub open spec fn row_command(
    pull_request: PullRequestData,
    repo_key: Seq<char>,
    pr_key: Seq<char>,
    context: Context,
) -> Command {
    let updated_at = opt_text(pull_request.updated_at);
    let merged_at = opt_text(pull_request.merged_at);
    let subject = seq![
        Cell::Text(pr_key),
        Cell::Integer(pull_request.number as int),
        Cell::Text(repo_key),
        Cell::Text(actor_key(pull_request.author, context)),
        Cell::Text(pull_request.state@),
        flag_cell(pull_request.is_draft),
        text_cell(opt_text(pull_request.title)),
        text_cell(opt_text(pull_request.body)),
        text_cell(opt_text(pull_request.base_ref)),
        text_cell(opt_text(pull_request.head_ref)),
    ];
    let timeline = seq![
        Cell::Text(pull_request.created_at@),
        text_cell(updated_at),
        text_cell(merged_at),
        text_cell(opt_text(pull_request.closed_at)),
        text_cell(merger_key(pull_request, context)),
        Cell::Text(stamp_date(pull_request.created_at@, context)),
        Cell::Text(stamp_time(pull_request.created_at@, context)),
        text_cell(opt_stamp_date(updated_at, context)),
        text_cell(opt_stamp_time(updated_at, context)),
        text_cell(opt_stamp_date(merged_at, context)),
    ];
    let volume = seq![
        Cell::Integer(comments_on(pull_request) as int),
        Cell::Integer(pull_request.reviews@.len() as i64 as int),
        Cell::Integer(pull_request.changed_files as int),
        Cell::Integer(pull_request.additions as int),
        Cell::Integer(pull_request.deletions as int),
    ];
    Command { sql: pull_request_sql(), params: subject + timeline + volume }
}

/// What goes before the row of a pull request: its people and its dates.
pub open spec fn preface_script(pull_request: PullRequestData, context: Context) -> Script {
    chained(
        chained(
            chained(
                chained(
                    actor_script(pull_request.author, context),
                    merger_script(pull_request, context),
                ),
                stamp_script(pull_request.created_at@, context),
            ),
            opt_stamp_script(opt_text(pull_request.updated_at), context),
        ),
        opt_stamp_script(opt_text(pull_request.merged_at), context),
    )
}

/// The script that stores a pull request with all it holds.
pub open spec fn pull_request_script(
    pull_request: PullRequestData,
    repo_key: Seq<char>,
    pr_key: Seq<char>,
    context: Context,
) -> Script {
    chained(
        chained(
            chained(
                chained(
                    chained(
                        chained(
                            preface_script(pull_request, context),
                            just(row_command(pull_request, repo_key, pr_key, context)),
                        ),
                        reviews_script(
                            pull_request.reviews@,
                            pull_request.reviews@.len() as int,
                            pr_key,
                            context,
                        ),
                    ),
                    review_comments_script(
                        pull_request.review_comments@,
                        pull_request.review_comments@.len() as int,
                        pr_key,
                        context,
                    ),
                ),
                conversation_script(
                    pull_request.conversation_comments@,
                    pull_request.conversation_comments@.len() as int,
                    pr_key,
                    context,
                ),
            ),
            head_checks_script(pull_request, pr_key),
        ),
        files_script(
            pull_request.files@,
            pull_request.files@.len() as int,
            pr_key,
            repo_key,
        ),
    )
}

/// A refusal stays: what would come behind it adds nothing.
proof fn lemma_refused(first: Script, second: Script)
    requires
        first.refusal is Some,
    ensures
        chained(first, second) == first,
{
}

impl Ingest {
    /// Store one review.
    fn add_review(&self, batch: &mut Batch, review: &ReviewData, pr_key: &str)
        requires
            only_refuses(*old(batch)),
        ensures
            plays(
                *final(batch),
                chained(script_of(*old(batch)), review_script(*review, pr_key@, self@)),
            ),
    {
        let ghost before = script_of(*batch);
        let submitted_at = match &review.submitted_at {
            Some(submitted_at) => submitted_at,
            None => {
                proof {
                    lemma_chained_idle(before);
                }
                return ;
            },
        };
        let reviewer_key = self.resolve_actor(batch, &review.author);
        let ghost people = actor_script(review.author, self@);
        let ghost dates = stamp_script(submitted_at@, self@);
        proof {
            lemma_chained_associative(before, people, dates);
        }
        let keys = match self.stamp(batch, submitted_at.as_str()) {
            Some(keys) => keys,
            None => {
                proof {
                    let row = just(
                        review_command(
                            review.id@,
                            pr_key@,
                            actor_key(review.author, self@),
                            review.state@,
                            opt_text(review.body),
                            submitted_at@,
                            stamp_date(submitted_at@, self@),
                            stamp_time(submitted_at@, self@),
                        ),
                    );
                    lemma_chained_associative(before, chained(people, dates), row);
                    lemma_refused(script_of(*batch), row);
                }
                return ;
            },
        };
        let statement = upsert_review(
            review.id.as_str(),
            pr_key,
            &reviewer_key,
            review.state.as_str(),
            as_slice(&review.body),
            submitted_at.as_str(),
            &keys.date_key,
            &keys.time_key,
        );
        proof {
            lemma_chained_associative(before, chained(people, dates), just(statement@));
        }
        step(batch, statement);
    }

    /// Store the reviews of a pull request.
    fn add_reviews(&self, batch: &mut Batch, reviews: &Vec<ReviewData>, pr_key: &str)
        requires
            only_refuses(*old(batch)),
        ensures
            plays(
                *final(batch),
                chained(
                    script_of(*old(batch)),
                    reviews_script(reviews@, reviews@.len() as int, pr_key@, self@),
                ),
            ),
    {
        let ghost before = script_of(*batch);
        let mut i: usize = 0;
        proof {
            lemma_chained_idle(before);
        }
        while i < reviews.len()
            invariant
                i <= reviews.len(),
                plays(*batch, chained(before, reviews_script(reviews@, i as int, pr_key@, self@))),
            decreases reviews.len() - i,
        {
            proof {
                lemma_chained_associative(
                    before,
                    reviews_script(reviews@, i as int, pr_key@, self@),
                    review_script(reviews@[i as int], pr_key@, self@),
                );
            }
            self.add_review(batch, &reviews[i], pr_key);
            i = i + 1;
        }
    }

    /// Store one review comment.
    fn add_review_comment(&self, batch: &mut Batch, comment: &ReviewCommentData, pr_key: &str)
        requires
            only_refuses(*old(batch)),
        ensures
            plays(
                *final(batch),
                chained(script_of(*old(batch)), review_comment_script(*comment, pr_key@, self@)),
            ),
    {
        let ghost before = script_of(*batch);
        let ghost people = actor_script(comment.author, self@);
        let ghost dates = stamp_script(comment.created_at@, self@);
        let ghost row = just(
            review_comment_command(
                comment.id@,
                pr_key@,
                actor_key(comment.author, self@),
                opt_text(comment.in_reply_to),
                opt_text(comment.path),
                comment.line,
                opt_text(comment.body),
                comment.created_at@,
                stamp_date(comment.created_at@, self@),
                stamp_time(comment.created_at@, self@),
            ),
        );
        proof {
            lemma_chained_associative(before, people, dates);
            lemma_chained_associative(before, chained(people, dates), row);
        }
        let author = self.resolve_actor(batch, &comment.author);
        let keys = match self.stamp(batch, comment.created_at.as_str()) {
            Some(keys) => keys,
            None => {
                proof {
                    lemma_refused(script_of(*batch), row);
                }
                return ;
            },
        };
        step(
            batch,
            upsert_review_comment(
                comment.id.as_str(),
                pr_key,
                &author,
                as_slice(&comment.in_reply_to),
                as_slice(&comment.path),
                comment.line,
                as_slice(&comment.body),
                comment.created_at.as_str(),
                &keys.date_key,
                &keys.time_key,
            ),
        );
    }

    /// Store the review comments of a pull request.
    fn add_review_comments(
        &self,
        batch: &mut Batch,
        comments: &Vec<ReviewCommentData>,
        pr_key: &str,
    )
        requires
            only_refuses(*old(batch)),
        ensures
            plays(
                *final(batch),
                chained(
                    script_of(*old(batch)),
                    review_comments_script(comments@, comments@.len() as int, pr_key@, self@),
                ),
            ),
    {
        let ghost before = script_of(*batch);
        let mut i: usize = 0;
        proof {
            lemma_chained_idle(before);
        }
        while i < comments.len()
            invariant
                i <= comments.len(),
                plays(
                    *batch,
                    chained(
                        before,
                        review_comments_script(comments@, i as int, pr_key@, self@),
                    ),
                ),
            decreases comments.len() - i,
        {
            proof {
                lemma_chained_associative(
                    before,
                    review_comments_script(comments@, i as int, pr_key@, self@),
                    review_comment_script(comments@[i as int], pr_key@, self@),
                );
            }
            self.add_review_comment(batch, &comments[i], pr_key);
            i = i + 1;
        }
    }

    /// Store one comment on a pull request or an issue.
    fn add_comment(
        &self,
        batch: &mut Batch,
        id: &str,
        parent_type: &str,
        parent_key: &str,
        author: &Option<ActorReference>,
        body: Option<&str>,
        created_at: &str,
    )
        requires
            only_refuses(*old(batch)),
        ensures
            plays(
                *final(batch),
                chained(
                    script_of(*old(batch)),
                    comment_script(
                        id@,
                        parent_type@,
                        parent_key@,
                        *author,
                        opt_str(body),
                        created_at@,
                        self@,
                    ),
                ),
            ),
    {
        let ghost before = script_of(*batch);
        let ghost people = actor_script(*author, self@);
        let ghost dates = stamp_script(created_at@, self@);
        let ghost row = just(
            issue_comment_command(
                id@,
                parent_type@,
                parent_key@,
                actor_key(*author, self@),
                None,
                opt_str(body),
                created_at@,
                stamp_date(created_at@, self@),
                stamp_time(created_at@, self@),
            ),
        );
        proof {
            lemma_chained_associative(before, people, dates);
            lemma_chained_associative(before, chained(people, dates), row);
        }
        let author_key = self.resolve_actor(batch, author);
        let keys = match self.stamp(batch, created_at) {
            Some(keys) => keys,
            None => {
                proof {
                    lemma_refused(script_of(*batch), row);
                }
                return ;
            },
        };
        step(
            batch,
            upsert_issue_comment(
                id,
                parent_type,
                parent_key,
                &author_key,
                None,
                body,
                created_at,
                &keys.date_key,
                &keys.time_key,
            ),
        );
    }

    /// Store the conversation of a pull request.
    fn add_conversation(
        &self,
        batch: &mut Batch,
        comments: &Vec<ConversationCommentData>,
        pr_key: &str,
    )
        requires
            only_refuses(*old(batch)),
        ensures
            plays(
                *final(batch),
                chained(
                    script_of(*old(batch)),
                    conversation_script(comments@, comments@.len() as int, pr_key@, self@),
                ),
            ),
    {
        let ghost before = script_of(*batch);
        let mut i: usize = 0;
        proof {
            lemma_chained_idle(before);
        }
        while i < comments.len()
            invariant
                i <= comments.len(),
                plays(
                    *batch,
                    chained(before, conversation_script(comments@, i as int, pr_key@, self@)),
                ),
            decreases comments.len() - i,
        {
            let comment = &comments[i];
            proof {
                lemma_chained_associative(
                    before,
                    conversation_script(comments@, i as int, pr_key@, self@),
                    comment_script(
                        comment.id@,
                        "pull_request"@,
                        pr_key@,
                        comment.author,
                        opt_text(comment.body),
                        comment.created_at@,
                        self@,
                    ),
                );
            }
            self.add_comment(
                batch,
                comment.id.as_str(),
                "pull_request",
                pr_key,
                &comment.author,
                as_slice(&comment.body),
                comment.created_at.as_str(),
            );
            i = i + 1;
        }
    }

    /// Store the check runs of the head commit.
    fn add_checks(batch: &mut Batch, pull_request: &PullRequestData, pr_key: &str)
        requires
            only_refuses(*old(batch)),
        ensures
            plays(
                *final(batch),
                chained(script_of(*old(batch)), head_checks_script(*pull_request, pr_key@)),
            ),
    {
        let ghost before = script_of(*batch);
        proof {
            lemma_chained_idle(before);
        }
        let head_sha = match &pull_request.head_sha {
            Some(head_sha) => head_sha,
            None => return ,
        };
        let checks = &pull_request.check_runs;
        let mut i: usize = 0;
        while i < checks.len()
            invariant
                i <= checks.len(),
                plays(
                    *batch,
                    chained(before, checks_script(checks@, i as int, pr_key@, head_sha@)),
                ),
            decreases checks.len() - i,
        {
            let check = &checks[i];
            let statement = upsert_check_run(
                check.id.as_str(),
                pr_key,
                head_sha.as_str(),
                check.name.as_str(),
                check.status.as_str(),
                as_slice(&check.conclusion),
                as_slice(&check.started_at),
                as_slice(&check.completed_at),
            );
            proof {
                lemma_chained_associative(
                    before,
                    checks_script(checks@, i as int, pr_key@, head_sha@),
                    just(statement@),
                );
            }
            step(batch, statement);
            i = i + 1;
        }
    }

    /// Store the changed files of a pull request.
    fn add_files(batch: &mut Batch, files: &Vec<FileDiffData>, pr_key: &str, repo_key: &str)
        requires
            only_refuses(*old(batch)),
        ensures
            plays(
                *final(batch),
                chained(
                    script_of(*old(batch)),
                    files_script(files@, files@.len() as int, pr_key@, repo_key@),
                ),
            ),
    {
        let ghost before = script_of(*batch);
        let mut i: usize = 0;
        proof {
            lemma_chained_idle(before);
        }
        while i < files.len()
            invariant
                i <= files.len(),
                plays(
                    *batch,
                    chained(before, files_script(files@, i as int, pr_key@, repo_key@)),
                ),
            decreases files.len() - i,
        {
            let file = &files[i];
            let statement = upsert_file_diff(
                pr_key,
                repo_key,
                file.path.as_str(),
                None,
                file.change_type.as_str(),
                None,
                file.additions,
                file.deletions,
            );
            proof {
                lemma_chained_associative(
                    before,
                    files_script(files@, i as int, pr_key@, repo_key@),
                    just(statement@),
                );
            }
            step(batch, statement);
            i = i + 1;
        }
    }

    /// Store the people and the dates of a pull request, then its row.
    fn add_row(
        &self,
        batch: &mut Batch,
        pull_request: &PullRequestData,
        repo_key: &str,
        pr_key: &str,
    )
        requires
            plays(*old(batch), idle()),
        ensures
            plays(
                *final(batch),
                chained(
                    preface_script(*pull_request, self@),
                    just(row_command(*pull_request, repo_key@, pr_key@, self@)),
                ),
            ),
    {
        let ghost row = just(row_command(*pull_request, repo_key@, pr_key@, self@));
        proof {
            lemma_chained_idle(actor_script(pull_request.author, self@));
        }
        let author_key = self.resolve_actor(batch, &pull_request.author);
        let ghost people = script_of(*batch);
        let merged_by_key = match &pull_request.merged_by {
            Some(_) => Some(self.resolve_actor(batch, &pull_request.merged_by)),
            None => {
                proof {
                    lemma_chained_idle(people);
                }
                None
            },
        };
        let created = match self.stamp(batch, pull_request.created_at.as_str()) {
            Some(keys) => keys,
            None => return ,
        };
        let updated = match self.stamp_opt(batch, &pull_request.updated_at) {
            Some(keys) => keys,
            None => return ,
        };
        let merged = match self.stamp_opt(batch, &pull_request.merged_at) {
            Some(keys) => keys,
            None => return ,
        };
        let comment_count: i64 = (pull_request.conversation_comments.len() as u128
            + pull_request.review_comments.len() as u128) as i64;
        let merged_by = as_slice(&merged_by_key);
        let (updated_date, updated_time) = match &updated {
            Some(keys) => (Some(keys.date_key.as_str()), Some(keys.time_key.as_str())),
            None => (None, None),
        };
        let merged_date = match &merged {
            Some(keys) => Some(keys.date_key.as_str()),
            None => None,
        };
        let statement = upsert_pull_request(
            &PullRequestRow {
                pr_key,
                number: pull_request.number,
                repo_key,
                author_key: author_key.as_str(),
                state: pull_request.state.as_str(),
                is_draft: pull_request.is_draft,
                title: as_slice(&pull_request.title),
                body: as_slice(&pull_request.body),
                base_ref: as_slice(&pull_request.base_ref),
                head_ref: as_slice(&pull_request.head_ref),
                created_at: pull_request.created_at.as_str(),
                updated_at: as_slice(&pull_request.updated_at),
                merged_at: as_slice(&pull_request.merged_at),
                closed_at: as_slice(&pull_request.closed_at),
                merged_by_key: merged_by,
                created_date_key: created.date_key.as_str(),
                created_time_key: created.time_key.as_str(),
                updated_date_key: updated_date,
                updated_time_key: updated_time,
                merged_date_key: merged_date,
                comment_count,
                review_count: pull_request.reviews.len() as i64,
                changed_files: pull_request.changed_files,
                additions: pull_request.additions,
                deletions: pull_request.deletions,
            },
        );
        assert(statement@ =~= row_command(*pull_request, repo_key@, pr_key@, self@));
        step(batch, statement);
    }

    /// The statements that store one pull request with all it holds, up to the
    /// first timestamp that cannot be read.
    pub fn upsert_one_pull_request(
        &self,
        repo_key: &str,
        pr_key: &str,
        pull_request: &PullRequestData,
    ) -> (batch: Batch)
        ensures
            plays(batch, pull_request_script(*pull_request, repo_key@, pr_key@, self@)),
    {
        let mut batch = empty_batch();
        self.add_row(&mut batch, pull_request, repo_key, pr_key);
        self.add_reviews(&mut batch, &pull_request.reviews, pr_key);
        self.add_review_comments(&mut batch, &pull_request.review_comments, pr_key);
        self.add_conversation(&mut batch, &pull_request.conversation_comments, pr_key);
        Ingest::add_checks(&mut batch, pull_request, pr_key);
        Ingest::add_files(&mut batch, &pull_request.files, pr_key, repo_key);
        batch
    }
}

// ---------------------------------------------------------------- patches

/// The REST path of the changed files of a pull request.
pub open spec fn patch_path(repo_key: Seq<char>, number: int) -> Seq<char> {
    "repos/"@ + repo_key + "/pulls/"@ + signed_decimal(number) + "/files?per_page=100"@
}

/// The REST call that backfills the patches of a pull request: none in fast
/// mode, and none without changed files.
pub fn patch_request(skip_diffs: bool, repo_key: &str, pull_request: &PullRequestData) -> (path:
    Option<String>)
    ensures
        match path {
            Some(path) => !skip_diffs && pull_request.files@.len() > 0 && path@ == patch_path(
                repo_key@,
                pull_request.number as int,
            ),
            None => skip_diffs || pull_request.files@.len() == 0,
        },
{
    if skip_diffs || pull_request.files.len() == 0 {
        return None;
    }
    let mut path = join3("repos/", repo_key, "/pulls/");
    push_signed(&mut path, pull_request.number);
    path.append("/files?per_page=100");
    Some(path)
}

/// The commands that set the patches of the first `n` files.
pub open spec fn patch_commands(pr_key: Seq<char>, patches: Seq<FilePatch>, n: int) -> Seq<Command>
    decreases n,
{
    if n <= 0 {
        Seq::empty()
    } else {
        patch_commands(pr_key, patches, n - 1).push(
            set_patch_command(
                pr_key,
                patches[n - 1].0@,
                opt_text(patches[n - 1].1),
                opt_text(patches[n - 1].2),
            ),
        )
    }
}

/// The statements that set the patches of the changed files.
pub fn patch_statements(pr_key: &str, patches: &Vec<FilePatch>) -> (statements: Vec<Statement>)
    ensures
        commands(statements@) == patch_commands(pr_key@, patches@, patches@.len() as int),
{
    let mut statements: Vec<Statement> = Vec::new();
    let mut i: usize = 0;
    assert(commands(statements@) =~= patch_commands(pr_key@, patches@, 0));
    while i < patches.len()
        invariant
            i <= patches.len(),
            commands(statements@) == patch_commands(pr_key@, patches@, i as int),
        decreases patches.len() - i,
    {
        push_statement(
            &mut statements,
            set_file_diff_patch(
                pr_key,
                patches[i].0.as_str(),
                as_slice(&patches[i].1),
                as_slice(&patches[i].2),
            ),
        );
        i = i + 1;
    }
    statements
}

// ---------------------------------------------------------------- issues

/// The script that stores the milestone of an issue.
pub open spec fn milestone_script(issue: IssueData, repo_key: Seq<char>) -> Script {
    match issue.milestone {
        Some(milestone) => just(milestone_command(repo_key, milestone)),
        None => idle(),
    }
}

/// The script that stores the first `n` labels.
pub open spec fn labels_script(labels: Seq<LabelData>, n: int, repo_key: Seq<char>) -> Script
    decreases n,
{
    if n <= 0 {
        idle()
    } else {
        chained(
            labels_script(labels, n - 1, repo_key),
            just(label_command(repo_key, labels[n - 1])),
        )
    }
}

/// The ids of labels.
pub open spec fn label_ids(labels: Seq<LabelData>) -> Seq<Seq<char>> {
    Seq::new(labels.len(), |i: int| labels[i].id@)
}

/// The script that ensures the entities of the first `n` assignees.
pub open spec fn assignees_script(assignees: Seq<ActorReference>, n: int, context: Context) -> Script
    decreases n,
{
    if n <= 0 {
        idle()
    } else {
        chained(
            assignees_script(assignees, n - 1, context),
            actor_script(Some(assignees[n - 1]), context),
        )
    }
}

/// The entity keys of assignees.
pub open spec fn assignee_keys(assignees: Seq<ActorReference>, context: Context) -> Seq<Seq<char>> {
    Seq::new(assignees.len(), |i: int| actor_key(Some(assignees[i]), context))
}

/// The script that stores the first `n` comments of an issue.
pub open spec fn issue_comments_script(
    comments: Seq<IssueCommentData>,
    n: int,
    issue_id: Seq<char>,
    context: Context,
) -> Script
    decreases n,
{
    if n <= 0 {
        idle()
    } else {
        chained(
            issue_comments_script(comments, n - 1, issue_id, context),
            comment_script(
                comments[n - 1].id@,
                "issue"@,
                issue_id,
                comments[n - 1].author,
                opt_text(comments[n - 1].body),
                comments[n - 1].created_at@,
                context,
            ),
        )
    }
}

/// The script of a list of commands.
pub open spec fn all_of(list: Seq<Command>) -> Script {
    Script { commands: list, refusal: None }
}

/// The commands that replace the labels of an issue.
pub open spec fn label_links(issue: IssueData) -> Seq<Command> {
    replace_links(
        DELETE_LABELS_SQL@,
        INSERT_LABEL_SQL@,
        issue.id@,
        label_ids(issue.labels@),
        issue.labels@.len() as int,
    )
}

/// The commands that replace the assignees of an issue.
pub open spec fn assignee_links(issue: IssueData, context: Context) -> Seq<Command> {
    replace_links(
        DELETE_ASSIGNEES_SQL@,
        INSERT_ASSIGNEE_SQL@,
        issue.id@,
        assignee_keys(issue.assignees@, context),
        issue.assignees@.len() as int,
    )
}

/// The script that stores the row of an issue, behind its author, its date and
/// its milestone.
pub open spec fn issue_row_script(issue: IssueData, repo_key: Seq<char>, context: Context) -> Script {
    chained(
        chained(
            chained(actor_script(issue.author, context), stamp_script(issue.created_at@, context)),
            milestone_script(issue, repo_key),
        ),
        just(
            issue_command(
                repo_key,
                issue,
                Some(actor_key(issue.author, context)),
                Some(stamp_date(issue.created_at@, context)),
            ),
        ),
    )
}

/// The script that stores an issue with all it holds.
pub open spec fn issue_script(issue: IssueData, repo_key: Seq<char>, context: Context) -> Script {
    chained(
        chained(
            chained(
                chained(
                    chained(
                        issue_row_script(issue, repo_key, context),
                        labels_script(issue.labels@, issue.labels@.len() as int, repo_key),
                    ),
                    all_of(label_links(issue)),
                ),
                assignees_script(issue.assignees@, issue.assignees@.len() as int, context),
            ),
            all_of(assignee_links(issue, context)),
        ),
        issue_comments_script(
            issue.comments@,
            issue.comments@.len() as int,
            issue.id@,
            context,
        ),
    )
}

/// Append statements, unless the batch has failed.
fn steps(batch: &mut Batch, statements: Vec<Statement>)
    requires
        only_refuses(*old(batch)),
    ensures
        plays(*final(batch), chained(script_of(*old(batch)), all_of(commands(statements@)))),
{
    if batch.failure.is_none() {
        extend(&mut batch.statements, statements);
        assert(script_of(*batch) =~= chained(
            script_of(*old(batch)),
            all_of(commands(statements@)),
        ));
    }
}

impl Ingest {
    /// Store the author, the date, the milestone and the row of an issue.
    fn add_issue_row(&self, batch: &mut Batch, issue: &IssueData, repo_key: &str)
        requires
            plays(*old(batch), idle()),
        ensures
            plays(*final(batch), issue_row_script(*issue, repo_key@, self@)),
    {
        proof {
            lemma_chained_idle(actor_script(issue.author, self@));
        }
        let author_key = self.resolve_actor(batch, &issue.author);
        let keys = match self.stamp(batch, issue.created_at.as_str()) {
            Some(keys) => keys,
            None => return ,
        };
        match &issue.milestone {
            Some(milestone) => {
                step(batch, upsert_milestone(repo_key, milestone));
            },
            None => {
                proof {
                    lemma_chained_idle(script_of(*batch));
                }
            },
        }
        step(
            batch,
            upsert_issue(
                repo_key,
                issue,
                Some(author_key.as_str()),
                Some(keys.date_key.as_str()),
            ),
        );
    }

    /// Store the labels of an issue and give their ids.
    fn add_labels(batch: &mut Batch, labels: &Vec<LabelData>, repo_key: &str) -> (ids: Vec<String>)
        requires
            only_refuses(*old(batch)),
        ensures
            texts(ids@) == label_ids(labels@),
            plays(
                *final(batch),
                chained(
                    script_of(*old(batch)),
                    labels_script(labels@, labels@.len() as int, repo_key@),
                ),
            ),
    {
        let ghost before = script_of(*batch);
        let mut ids: Vec<String> = Vec::new();
        let mut i: usize = 0;
        proof {
            lemma_chained_idle(before);
        }
        assert(texts(ids@) =~= label_ids(labels@).take(0));
        while i < labels.len()
            invariant
                i <= labels.len(),
                texts(ids@) == label_ids(labels@).take(i as int),
                plays(*batch, chained(before, labels_script(labels@, i as int, repo_key@))),
            decreases labels.len() - i,
        {
            let statement = upsert_label(repo_key, &labels[i]);
            proof {
                lemma_chained_associative(
                    before,
                    labels_script(labels@, i as int, repo_key@),
                    just(statement@),
                );
            }
            step(batch, statement);
            let ghost earlier = texts(ids@);
            let id = copy(labels[i].id.as_str());
            ids.push(id);
            assert(texts(ids@) =~= earlier.push(id@));
            assert(label_ids(labels@).take(i + 1) =~= label_ids(labels@).take(i as int).push(
                label_ids(labels@)[i as int],
            ));
            i = i + 1;
        }
        assert(label_ids(labels@).take(labels@.len() as int) =~= label_ids(labels@));
        ids
    }

    /// Ensure the entities of the assignees of an issue and give their keys.
    fn add_assignees(&self, batch: &mut Batch, assignees: &Vec<ActorReference>) -> (keys: Vec<
        String,
    >)
        requires
            only_refuses(*old(batch)),
        ensures
            texts(keys@) == assignee_keys(assignees@, self@),
            plays(
                *final(batch),
                chained(
                    script_of(*old(batch)),
                    assignees_script(assignees@, assignees@.len() as int, self@),
                ),
            ),
    {
        let ghost before = script_of(*batch);
        let mut keys: Vec<String> = Vec::new();
        let mut i: usize = 0;
        proof {
            lemma_chained_idle(before);
        }
        assert(texts(keys@) =~= assignee_keys(assignees@, self@).take(0));
        while i < assignees.len()
            invariant
                i <= assignees.len(),
                texts(keys@) == assignee_keys(assignees@, self@).take(i as int),
                plays(*batch, chained(before, assignees_script(assignees@, i as int, self@))),
            decreases assignees.len() - i,
        {
            let (key, statement) = ensure_entity(&assignees[i], self.bot_suffix.as_str());
            proof {
                lemma_chained_associative(
                    before,
                    assignees_script(assignees@, i as int, self@),
                    just(statement@),
                );
            }
            step(batch, statement);
            let ghost earlier = texts(keys@);
            keys.push(key);
            assert(texts(keys@) =~= earlier.push(key@));
            assert(assignee_keys(assignees@, self@).take(i + 1) =~= assignee_keys(
                assignees@,
                self@,
            ).take(i as int).push(assignee_keys(assignees@, self@)[i as int]));
            i = i + 1;
        }
        assert(assignee_keys(assignees@, self@).take(assignees@.len() as int) =~= assignee_keys(
            assignees@,
            self@,
        ));
        keys
    }

    /// Store the comments of an issue.
    fn add_issue_comments(
        &self,
        batch: &mut Batch,
        comments: &Vec<IssueCommentData>,
        issue_id: &str,
    )
        requires
            only_refuses(*old(batch)),
        ensures
            plays(
                *final(batch),
                chained(
                    script_of(*old(batch)),
                    issue_comments_script(comments@, comments@.len() as int, issue_id@, self@),
                ),
            ),
    {
        let ghost before = script_of(*batch);
        let mut i: usize = 0;
        proof {
            lemma_chained_idle(before);
        }
        while i < comments.len()
            invariant
                i <= comments.len(),
                plays(
                    *batch,
                    chained(before, issue_comments_script(comments@, i as int, issue_id@, self@)),
                ),
            decreases comments.len() - i,
        {
            let comment = &comments[i];
            proof {
                lemma_chained_associative(
                    before,
                    issue_comments_script(comments@, i as int, issue_id@, self@),
                    comment_script(
                        comment.id@,
                        "issue"@,
                        issue_id@,
                        comment.author,
                        opt_text(comment.body),
                        comment.created_at@,
                        self@,
                    ),
                );
            }
            self.add_comment(
                batch,
                comment.id.as_str(),
                "issue",
                issue_id,
                &comment.author,
                as_slice(&comment.body),
                comment.created_at.as_str(),
            );
            i = i + 1;
        }
    }

    /// The statements that store one issue with all it holds, up to the first
    /// timestamp that cannot be read.
    pub fn upsert_one_issue(&self, repo_key: &str, issue: &IssueData) -> (batch: Batch)
        ensures
            plays(batch, issue_script(*issue, repo_key@, self@)),
    {
        let mut batch = empty_batch();
        self.add_issue_row(&mut batch, issue, repo_key);
        let ids = Ingest::add_labels(&mut batch, &issue.labels, repo_key);
        assert(ids@.len() == texts(ids@).len());
        steps(&mut batch, replace_issue_labels(issue.id.as_str(), &ids));
        let keys = self.add_assignees(&mut batch, &issue.assignees);
        assert(keys@.len() == texts(keys@).len());
        steps(&mut batch, replace_issue_assignees(issue.id.as_str(), &keys));
        self.add_issue_comments(&mut batch, &issue.comments, issue.id.as_str());
        batch
    }
}

// ---------------------------------------------------------------- laws

/// The timestamp can be placed in the calendar of the warehouse.
pub open spec fn is_stamped(timestamp: Seq<char>, context: Context) -> bool {
    timestamp_moment(timestamp, context.zone) is Ok
}

/// Every timestamp of a pull request that is stored can be placed.
pub open spec fn all_stamped(pull_request: PullRequestData, context: Context) -> bool {
    &&& is_stamped(pull_request.created_at@, context)
    &&& opt_text(pull_request.updated_at) matches Some(at) ==> is_stamped(at, context)
    &&& opt_text(pull_request.merged_at) matches Some(at) ==> is_stamped(at, context)
    &&& forall|i: int|
        0 <= i < pull_request.reviews@.len() ==> (opt_text(
            (#[trigger] pull_request.reviews@[i]).submitted_at,
        ) matches Some(at) ==> is_stamped(at, context))
    &&& forall|i: int|
        0 <= i < pull_request.review_comments@.len() ==> is_stamped(
            (#[trigger] pull_request.review_comments@[i]).created_at@,
            context,
        )
    &&& forall|i: int|
        0 <= i < pull_request.conversation_comments@.len() ==> is_stamped(
            (#[trigger] pull_request.conversation_comments@[i]).created_at@,
            context,
        )
}

proof fn lemma_reviews_refusal(reviews: Seq<ReviewData>, n: int, pr_key: Seq<char>, context: Context)
    requires
        0 <= n <= reviews.len(),
    ensures
        reviews_script(reviews, n, pr_key, context).refusal is None <==> forall|i: int|
            0 <= i < n ==> (opt_text((#[trigger] reviews[i]).submitted_at) matches Some(at)
                ==> is_stamped(at, context)),
    decreases n,
{
    if n > 0 {
        lemma_reviews_refusal(reviews, n - 1, pr_key, context);
        assert(reviews[n - 1] == reviews[n - 1]);
    }
}

proof fn lemma_review_comments_refusal(
    comments: Seq<ReviewCommentData>,
    n: int,
    pr_key: Seq<char>,
    context: Context,
)
    requires
        0 <= n <= comments.len(),
    ensures
        review_comments_script(comments, n, pr_key, context).refusal is None <==> forall|i: int|
            0 <= i < n ==> is_stamped((#[trigger] comments[i]).created_at@, context),
    decreases n,
{
    if n > 0 {
        lemma_review_comments_refusal(comments, n - 1, pr_key, context);
        assert(comments[n - 1] == comments[n - 1]);
    }
}

proof fn lemma_conversation_refusal(
    comments: Seq<ConversationCommentData>,
    n: int,
    pr_key: Seq<char>,
    context: Context,
)
    requires
        0 <= n <= comments.len(),
    ensures
        conversation_script(comments, n, pr_key, context).refusal is None <==> forall|i: int|
            0 <= i < n ==> is_stamped((#[trigger] comments[i]).created_at@, context),
    decreases n,
{
    if n > 0 {
        lemma_conversation_refusal(comments, n - 1, pr_key, context);
        assert(comments[n - 1] == comments[n - 1]);
    }
}

proof fn lemma_checks_refusal(
    checks: Seq<CheckRunData>,
    n: int,
    pr_key: Seq<char>,
    head_sha: Seq<char>,
)
    ensures
        checks_script(checks, n, pr_key, head_sha).refusal is None,
    decreases n,
{
    if n > 0 {
        lemma_checks_refusal(checks, n - 1, pr_key, head_sha);
    }
}

proof fn lemma_files_refusal(
    files: Seq<FileDiffData>,
    n: int,
    pr_key: Seq<char>,
    repo_key: Seq<char>,
)
    ensures
        files_script(files, n, pr_key, repo_key).refusal is None,
    decreases n,
{
    if n > 0 {
        lemma_files_refusal(files, n - 1, pr_key, repo_key);
    }
}

/// A pull request is stored whole if and only if each of its timestamps can be
/// placed: nothing else refuses it, and a pending review never does.
pub proof fn law_only_a_timestamp_refuses_a_pull_request(
    pull_request: PullRequestData,
    repo_key: Seq<char>,
    pr_key: Seq<char>,
    context: Context,
)
    ensures
        pull_request_script(pull_request, repo_key, pr_key, context).refusal is None
            <==> all_stamped(pull_request, context),
{
    lemma_reviews_refusal(
        pull_request.reviews@,
        pull_request.reviews@.len() as int,
        pr_key,
        context,
    );
    lemma_review_comments_refusal(
        pull_request.review_comments@,
        pull_request.review_comments@.len() as int,
        pr_key,
        context,
    );
    lemma_conversation_refusal(
        pull_request.conversation_comments@,
        pull_request.conversation_comments@.len() as int,
        pr_key,
        context,
    );
    if let Some(head_sha) = opt_text(pull_request.head_sha) {
        lemma_checks_refusal(
            pull_request.check_runs@,
            pull_request.check_runs@.len() as int,
            pr_key,
            head_sha,
        );
    }
    lemma_files_refusal(
        pull_request.files@,
        pull_request.files@.len() as int,
        pr_key,
        repo_key,
    );
}

} // verus!
