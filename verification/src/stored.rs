//! What storing leaves in the warehouse: for every fetched item, the column of
//! each table that holds each of its fields.

use vstd::prelude::*;
use crate::clock::{local_day, local_hour, parsed_instant, Moment};
use crate::fetch::issues::{
    is_issue, is_issue_comment, is_label, is_milestone, lowered, IssueCommentData, IssueData,
    LabelData, MilestoneData,
};
use crate::fetch::pull_requests::{
    actor_in, actor_view, commits_of, filled, gathered, is_check_run, is_conversation_comment,
    is_file, is_metadata, is_patch, is_pull_request, is_review, is_review_comment, with_filename,
    with_id, with_id_and_date, with_path, ActorReference, CheckRunData, ConversationCommentData,
    FileDiffData, FilePatch, PullRequestData, RepositoryMetadata, ReviewCommentData, ReviewData,
};
use crate::ingest::{
    actor_key, actor_script, all_of, all_stamped, assignee_keys, assignee_links, assignees_script,
    chained, checks_script, comment_script, conversation_script, files_script, head_checks_script,
    is_stamped, issue_comments_script, issue_row_script, issue_script, just, label_ids, label_links,
    labels_script, merger_script, milestone_script, opt_stamp_date, opt_stamp_script,
    opt_stamp_time, patch_commands, preface_script, pull_request_script, review_comment_script,
    review_comments_script, review_script, reviews_script, row_command, stamp_date, stamp_script,
    stamp_time, Context, Script,
};
use crate::json::{
    count_at, field, flag_at, inner_text, integer_at, listed, nodes_at, solid_field, text_at,
    text_or, Json,
};
use crate::number::padded;
use crate::sql::{flag_cell, int_cell, text_cell, Cell, Command};
use crate::storage::issue_repository::{
    issue_command, issue_fields, label_command, label_fields, milestone_command, milestone_fields,
    milestone_id, replace_links, DELETE_ASSIGNEES_SQL, DELETE_LABELS_SQL, INSERT_ASSIGNEE_SQL,
    INSERT_LABEL_SQL,
};
use crate::storage::repository::{
    check_run_command, check_run_fields, entity_command, entity_fields, file_diff_command,
    file_diff_fields, is_bot_account, issue_comment_command, issue_comment_fields, owner_and_name,
    pull_request_fields, repository_command, repository_fields, review_command,
    review_comment_command, review_comment_fields, review_fields,
};
use crate::storage::time_dimension::{date_fields, date_sql, local_date_key, time_fields, time_sql};
use crate::storage::upsert::{
    always_leaves, fills, holds_in, ignore_sql, keeps_first, lemma_reaches_its_column, sets,
};
use crate::text::{finishes_with, lowercase, opt_text};
use crate::walk::metadata_command;

verus! {

// ---------------------------------------------------------------- values

/// The account is a bot's.
pub open spec fn is_bot(login: Seq<char>, actor_type: Seq<char>, suffix: Seq<char>) -> bool {
    actor_type == "Bot"@ || finishes_with(lowercase(login), lowercase(suffix))
}

/// The entity key of an account: its type and its login in lower case. An
/// account that is gone has the key of the ghost.
pub open spec fn entity_cell(actor: Option<(Seq<char>, Seq<char>)>, suffix: Seq<char>) -> Cell {
    match actor {
        Some((login, actor_type)) => if is_bot(login, actor_type, suffix) {
            Cell::Text("bot:"@ + lowercase(login))
        } else {
            Cell::Text("user:"@ + lowercase(login))
        },
        None => Cell::Text("user:ghost"@),
    }
}

/// The entity key of an account, or null.
pub open spec fn opt_entity_cell(actor: Option<(Seq<char>, Seq<char>)>, suffix: Seq<char>) -> Cell {
    match actor {
        Some(_) => entity_cell(actor, suffix),
        None => Cell::Null,
    }
}

/// The instant of a timestamp.
pub open spec fn moment_of(timestamp: Seq<char>) -> Moment {
    match parsed_instant(timestamp) {
        Ok((seconds, nanos)) => Moment { seconds, nanos },
        Err(_) => Moment { seconds: 0, nanos: 0 },
    }
}

/// The key of the local day of a timestamp.
pub open spec fn date_cell(timestamp: Seq<char>, zone: Seq<char>) -> Cell {
    Cell::Text(local_date_key(local_day(zone, moment_of(timestamp))))
}

/// The key of the local hour of a timestamp.
pub open spec fn time_cell(timestamp: Seq<char>, zone: Seq<char>) -> Cell {
    Cell::Text(padded(local_hour(zone, moment_of(timestamp)) as nat, 2) + ":00"@)
}

/// The key of the local day of an optional timestamp.
pub open spec fn opt_date_cell(timestamp: Option<Seq<char>>, zone: Seq<char>) -> Cell {
    match timestamp {
        Some(timestamp) => date_cell(timestamp, zone),
        None => Cell::Null,
    }
}

/// The key of the local hour of an optional timestamp.
pub open spec fn opt_time_cell(timestamp: Option<Seq<char>>, zone: Seq<char>) -> Cell {
    match timestamp {
        Some(timestamp) => time_cell(timestamp, zone),
        None => Cell::Null,
    }
}

/// The optional timestamp can be placed in the calendar, where there is one.
pub open spec fn is_stamped_if_any(timestamp: Option<Seq<char>>, context: Context) -> bool {
    timestamp matches Some(at) ==> is_stamped(at, context)
}

/// The number of items, as a stored count holds it.
pub open spec fn size_cell(size: int) -> Cell {
    Cell::Integer(size)
}

/// A number, or null.
pub open spec fn number_cell(number: Option<int>) -> Cell {
    match number {
        Some(n) => Cell::Integer(n),
        None => Cell::Null,
    }
}

proof fn lemma_actor(actor: Option<ActorReference>, context: Context)
    ensures
        Cell::Text(actor_key(actor, context)) == entity_cell(
            actor_view(actor),
            context.bot_suffix,
        ),
{
    reveal_strlit("bot");
    reveal_strlit("user");
    reveal_strlit(":");
    reveal_strlit("bot:");
    reveal_strlit("user:");
    assert("bot"@ + ":"@ =~= "bot:"@);
    assert("user"@ + ":"@ =~= "user:"@);
}

proof fn lemma_stamp(timestamp: Seq<char>, context: Context)
    requires
        is_stamped(timestamp, context),
    ensures
        Cell::Text(stamp_date(timestamp, context)) == date_cell(timestamp, context.zone),
        Cell::Text(stamp_time(timestamp, context)) == time_cell(timestamp, context.zone),
{
}

proof fn lemma_opt_stamp(timestamp: Option<Seq<char>>, context: Context)
    requires
        is_stamped_if_any(timestamp, context),
    ensures
        text_cell(opt_stamp_date(timestamp, context)) == opt_date_cell(timestamp, context.zone),
        text_cell(opt_stamp_time(timestamp, context)) == opt_time_cell(timestamp, context.zone),
{
    if let Some(at) = timestamp {
        lemma_stamp(at, context);
    }
}

/// The command stores the row of a pull request: each column holds the field that
/// it is named after.
#[verifier::opaque]
pub open spec fn stores_pull_request(
    command: Command,
    item: PullRequestData,
    repo_key: Seq<char>,
    pr_key: Seq<char>,
    context: Context,
) -> bool {
    &&& keeps_first(command, "fact_pull_requests"@, pull_request_fields(), "pr_key"@, Cell::Text(pr_key))
    &&& keeps_first(command, "fact_pull_requests"@, pull_request_fields(), "number"@, Cell::Integer(item.number as int))
    &&& keeps_first(command, "fact_pull_requests"@, pull_request_fields(), "repo_key"@, Cell::Text(repo_key))
    &&& keeps_first(command, "fact_pull_requests"@, pull_request_fields(), "author_key"@, entity_cell(actor_view(item.author), context.bot_suffix))
    &&& always_leaves(command, "fact_pull_requests"@, pull_request_fields(), "state"@, Cell::Text(item.state@))
    &&& always_leaves(command, "fact_pull_requests"@, pull_request_fields(), "is_draft"@, flag_cell(item.is_draft))
    &&& always_leaves(command, "fact_pull_requests"@, pull_request_fields(), "title"@, text_cell(opt_text(item.title)))
    &&& always_leaves(command, "fact_pull_requests"@, pull_request_fields(), "body"@, text_cell(opt_text(item.body)))
    &&& always_leaves(command, "fact_pull_requests"@, pull_request_fields(), "base_ref"@, text_cell(opt_text(item.base_ref)))
    &&& always_leaves(command, "fact_pull_requests"@, pull_request_fields(), "head_ref"@, text_cell(opt_text(item.head_ref)))
    &&& keeps_first(command, "fact_pull_requests"@, pull_request_fields(), "created_at"@, Cell::Text(item.created_at@))
    &&& always_leaves(command, "fact_pull_requests"@, pull_request_fields(), "updated_at"@, text_cell(opt_text(item.updated_at)))
    &&& always_leaves(command, "fact_pull_requests"@, pull_request_fields(), "merged_at"@, text_cell(opt_text(item.merged_at)))
    &&& always_leaves(command, "fact_pull_requests"@, pull_request_fields(), "closed_at"@, text_cell(opt_text(item.closed_at)))
    &&& always_leaves(command, "fact_pull_requests"@, pull_request_fields(), "merged_by_key"@, opt_entity_cell(actor_view(item.merged_by), context.bot_suffix))
    &&& keeps_first(command, "fact_pull_requests"@, pull_request_fields(), "created_date_key"@, date_cell(item.created_at@, context.zone))
    &&& keeps_first(command, "fact_pull_requests"@, pull_request_fields(), "created_time_key"@, time_cell(item.created_at@, context.zone))
    &&& always_leaves(command, "fact_pull_requests"@, pull_request_fields(), "updated_date_key"@, opt_date_cell(opt_text(item.updated_at), context.zone))
    &&& always_leaves(command, "fact_pull_requests"@, pull_request_fields(), "updated_time_key"@, opt_time_cell(opt_text(item.updated_at), context.zone))
    &&& always_leaves(command, "fact_pull_requests"@, pull_request_fields(), "merged_date_key"@, opt_date_cell(opt_text(item.merged_at), context.zone))
    &&& always_leaves(command, "fact_pull_requests"@, pull_request_fields(), "comment_count"@, size_cell((item.conversation_comments@.len() + item.review_comments@.len()) as int))
    &&& always_leaves(command, "fact_pull_requests"@, pull_request_fields(), "review_count"@, size_cell(item.reviews@.len() as int))
    &&& always_leaves(command, "fact_pull_requests"@, pull_request_fields(), "changed_files"@, Cell::Integer(item.changed_files as int))
    &&& always_leaves(command, "fact_pull_requests"@, pull_request_fields(), "additions"@, Cell::Integer(item.additions as int))
    &&& always_leaves(command, "fact_pull_requests"@, pull_request_fields(), "deletions"@, Cell::Integer(item.deletions as int))
}

/// The same, from the node of the response on.
#[verifier::opaque]
pub open spec fn stores_pull_request_node(
    command: Command,
    node: Json,
    repo_key: Seq<char>,
    pr_key: Seq<char>,
    context: Context,
) -> bool {
    &&& keeps_first(command, "fact_pull_requests"@, pull_request_fields(), "pr_key"@, Cell::Text(pr_key))
    &&& keeps_first(command, "fact_pull_requests"@, pull_request_fields(), "number"@, Cell::Integer(count_at(node, "number"@)))
    &&& keeps_first(command, "fact_pull_requests"@, pull_request_fields(), "repo_key"@, Cell::Text(repo_key))
    &&& keeps_first(command, "fact_pull_requests"@, pull_request_fields(), "author_key"@, entity_cell(actor_in(field(node, "author"@)), context.bot_suffix))
    &&& always_leaves(command, "fact_pull_requests"@, pull_request_fields(), "state"@, Cell::Text(text_or(node, "state"@, "OPEN"@)))
    &&& always_leaves(command, "fact_pull_requests"@, pull_request_fields(), "is_draft"@, flag_cell(flag_at(node, "isDraft"@)))
    &&& always_leaves(command, "fact_pull_requests"@, pull_request_fields(), "title"@, text_cell(text_at(node, "title"@)))
    &&& always_leaves(command, "fact_pull_requests"@, pull_request_fields(), "body"@, text_cell(text_at(node, "body"@)))
    &&& always_leaves(command, "fact_pull_requests"@, pull_request_fields(), "base_ref"@, text_cell(text_at(node, "baseRefName"@)))
    &&& always_leaves(command, "fact_pull_requests"@, pull_request_fields(), "head_ref"@, text_cell(text_at(node, "headRefName"@)))
    &&& keeps_first(command, "fact_pull_requests"@, pull_request_fields(), "created_at"@, text_cell(text_at(node, "createdAt"@)))
    &&& always_leaves(command, "fact_pull_requests"@, pull_request_fields(), "updated_at"@, text_cell(text_at(node, "updatedAt"@)))
    &&& always_leaves(command, "fact_pull_requests"@, pull_request_fields(), "merged_at"@, text_cell(text_at(node, "mergedAt"@)))
    &&& always_leaves(command, "fact_pull_requests"@, pull_request_fields(), "closed_at"@, text_cell(text_at(node, "closedAt"@)))
    &&& always_leaves(command, "fact_pull_requests"@, pull_request_fields(), "merged_by_key"@, opt_entity_cell(actor_in(field(node, "mergedBy"@)), context.bot_suffix))
    &&& keeps_first(command, "fact_pull_requests"@, pull_request_fields(), "created_date_key"@, opt_date_cell(text_at(node, "createdAt"@), context.zone))
    &&& keeps_first(command, "fact_pull_requests"@, pull_request_fields(), "created_time_key"@, opt_time_cell(text_at(node, "createdAt"@), context.zone))
    &&& always_leaves(command, "fact_pull_requests"@, pull_request_fields(), "updated_date_key"@, opt_date_cell(text_at(node, "updatedAt"@), context.zone))
    &&& always_leaves(command, "fact_pull_requests"@, pull_request_fields(), "updated_time_key"@, opt_time_cell(text_at(node, "updatedAt"@), context.zone))
    &&& always_leaves(command, "fact_pull_requests"@, pull_request_fields(), "merged_date_key"@, opt_date_cell(text_at(node, "mergedAt"@), context.zone))
    &&& always_leaves(command, "fact_pull_requests"@, pull_request_fields(), "changed_files"@, Cell::Integer(count_at(node, "changedFiles"@)))
    &&& always_leaves(command, "fact_pull_requests"@, pull_request_fields(), "additions"@, Cell::Integer(count_at(node, "additions"@)))
    &&& always_leaves(command, "fact_pull_requests"@, pull_request_fields(), "deletions"@, Cell::Integer(count_at(node, "deletions"@)))
}

/// The row of a fetched pull request holds, in every column, the field of that
/// name: the additions in `additions`, the deletions in `deletions`, and so with
/// the others. A column that changes with the pull request holds the new value
/// whatever was stored before. Its dates are filed under their local days.
pub proof fn law_a_pull_request_row_holds_what_was_fetched(
    item: PullRequestData,
    repo_key: Seq<char>,
    pr_key: Seq<char>,
    context: Context,
)
    requires
        is_stamped(item.created_at@, context),
        is_stamped_if_any(opt_text(item.updated_at), context),
        is_stamped_if_any(opt_text(item.merged_at), context),
        item.conversation_comments@.len() + item.review_comments@.len() <= i64::MAX,
        item.reviews@.len() <= i64::MAX,
    ensures
        stores_pull_request(
            row_command(item, repo_key, pr_key, context),
            item,
            repo_key,
            pr_key,
            context,
        ),
{
    reveal(stores_pull_request);
    lemma_actor(item.author, context);
    lemma_actor(item.merged_by, context);
    lemma_stamp(item.created_at@, context);
    lemma_opt_stamp(opt_text(item.updated_at), context);
    lemma_opt_stamp(opt_text(item.merged_at), context);
    let command = row_command(item, repo_key, pr_key, context);
    lemma_reaches_its_column(command, "fact_pull_requests"@, pull_request_fields(), 0);
    assert(pull_request_fields()[0].name == "pr_key"@);
    assert(command.params[0] == Cell::Text(pr_key));
    lemma_reaches_its_column(command, "fact_pull_requests"@, pull_request_fields(), 1);
    assert(pull_request_fields()[1].name == "number"@);
    assert(command.params[1] == Cell::Integer(item.number as int));
    lemma_reaches_its_column(command, "fact_pull_requests"@, pull_request_fields(), 2);
    assert(pull_request_fields()[2].name == "repo_key"@);
    assert(command.params[2] == Cell::Text(repo_key));
    lemma_reaches_its_column(command, "fact_pull_requests"@, pull_request_fields(), 3);
    assert(pull_request_fields()[3].name == "author_key"@);
    assert(command.params[3] == entity_cell(actor_view(item.author), context.bot_suffix));
    lemma_reaches_its_column(command, "fact_pull_requests"@, pull_request_fields(), 4);
    assert(pull_request_fields()[4].name == "state"@);
    assert(command.params[4] == Cell::Text(item.state@));
    lemma_reaches_its_column(command, "fact_pull_requests"@, pull_request_fields(), 5);
    assert(pull_request_fields()[5].name == "is_draft"@);
    assert(command.params[5] == flag_cell(item.is_draft));
    lemma_reaches_its_column(command, "fact_pull_requests"@, pull_request_fields(), 6);
    assert(pull_request_fields()[6].name == "title"@);
    assert(command.params[6] == text_cell(opt_text(item.title)));
    lemma_reaches_its_column(command, "fact_pull_requests"@, pull_request_fields(), 7);
    assert(pull_request_fields()[7].name == "body"@);
    assert(command.params[7] == text_cell(opt_text(item.body)));
    lemma_reaches_its_column(command, "fact_pull_requests"@, pull_request_fields(), 8);
    assert(pull_request_fields()[8].name == "base_ref"@);
    assert(command.params[8] == text_cell(opt_text(item.base_ref)));
    lemma_reaches_its_column(command, "fact_pull_requests"@, pull_request_fields(), 9);
    assert(pull_request_fields()[9].name == "head_ref"@);
    assert(command.params[9] == text_cell(opt_text(item.head_ref)));
    lemma_reaches_its_column(command, "fact_pull_requests"@, pull_request_fields(), 10);
    assert(pull_request_fields()[10].name == "created_at"@);
    assert(command.params[10] == Cell::Text(item.created_at@));
    lemma_reaches_its_column(command, "fact_pull_requests"@, pull_request_fields(), 11);
    assert(pull_request_fields()[11].name == "updated_at"@);
    assert(command.params[11] == text_cell(opt_text(item.updated_at)));
    lemma_reaches_its_column(command, "fact_pull_requests"@, pull_request_fields(), 12);
    assert(pull_request_fields()[12].name == "merged_at"@);
    assert(command.params[12] == text_cell(opt_text(item.merged_at)));
    lemma_reaches_its_column(command, "fact_pull_requests"@, pull_request_fields(), 13);
    assert(pull_request_fields()[13].name == "closed_at"@);
    assert(command.params[13] == text_cell(opt_text(item.closed_at)));
    lemma_reaches_its_column(command, "fact_pull_requests"@, pull_request_fields(), 14);
    assert(pull_request_fields()[14].name == "merged_by_key"@);
    assert(command.params[14] == opt_entity_cell(actor_view(item.merged_by), context.bot_suffix));
    lemma_reaches_its_column(command, "fact_pull_requests"@, pull_request_fields(), 15);
    assert(pull_request_fields()[15].name == "created_date_key"@);
    assert(command.params[15] == date_cell(item.created_at@, context.zone));
    lemma_reaches_its_column(command, "fact_pull_requests"@, pull_request_fields(), 16);
    assert(pull_request_fields()[16].name == "created_time_key"@);
    assert(command.params[16] == time_cell(item.created_at@, context.zone));
    lemma_reaches_its_column(command, "fact_pull_requests"@, pull_request_fields(), 17);
    assert(pull_request_fields()[17].name == "updated_date_key"@);
    assert(command.params[17] == opt_date_cell(opt_text(item.updated_at), context.zone));
    lemma_reaches_its_column(command, "fact_pull_requests"@, pull_request_fields(), 18);
    assert(pull_request_fields()[18].name == "updated_time_key"@);
    assert(command.params[18] == opt_time_cell(opt_text(item.updated_at), context.zone));
    lemma_reaches_its_column(command, "fact_pull_requests"@, pull_request_fields(), 19);
    assert(pull_request_fields()[19].name == "merged_date_key"@);
    assert(command.params[19] == opt_date_cell(opt_text(item.merged_at), context.zone));
    lemma_reaches_its_column(command, "fact_pull_requests"@, pull_request_fields(), 20);
    assert(pull_request_fields()[20].name == "comment_count"@);
    assert(command.params[20] == size_cell((item.conversation_comments@.len() + item.review_comments@.len()) as int));
    lemma_reaches_its_column(command, "fact_pull_requests"@, pull_request_fields(), 21);
    assert(pull_request_fields()[21].name == "review_count"@);
    assert(command.params[21] == size_cell(item.reviews@.len() as int));
    lemma_reaches_its_column(command, "fact_pull_requests"@, pull_request_fields(), 22);
    assert(pull_request_fields()[22].name == "changed_files"@);
    assert(command.params[22] == Cell::Integer(item.changed_files as int));
    lemma_reaches_its_column(command, "fact_pull_requests"@, pull_request_fields(), 23);
    assert(pull_request_fields()[23].name == "additions"@);
    assert(command.params[23] == Cell::Integer(item.additions as int));
    lemma_reaches_its_column(command, "fact_pull_requests"@, pull_request_fields(), 24);
    assert(pull_request_fields()[24].name == "deletions"@);
    assert(command.params[24] == Cell::Integer(item.deletions as int));
}

/// What a node of the response says of a pull request reaches the column that it
/// is stored in.
pub proof fn law_a_pull_request_node_reaches_its_columns(
    command: Command,
    item: PullRequestData,
    node: Json,
    repo_key: Seq<char>,
    pr_key: Seq<char>,
    context: Context,
)
    requires
        is_pull_request(item, node),
        stores_pull_request(command, item, repo_key, pr_key, context),
    ensures
        stores_pull_request_node(command, node, repo_key, pr_key, context),
{
    reveal(stores_pull_request);
    reveal(stores_pull_request_node);
}

/// The command stores a submitted review.
#[verifier::opaque]
pub open spec fn stores_review(
    command: Command,
    item: ReviewData,
    submitted_at: Seq<char>,
    pr_key: Seq<char>,
    context: Context,
) -> bool {
    &&& keeps_first(command, "fact_reviews"@, review_fields(), "review_key"@, Cell::Text(item.id@))
    &&& keeps_first(command, "fact_reviews"@, review_fields(), "pr_key"@, Cell::Text(pr_key))
    &&& keeps_first(command, "fact_reviews"@, review_fields(), "reviewer_key"@, entity_cell(actor_view(item.author), context.bot_suffix))
    &&& always_leaves(command, "fact_reviews"@, review_fields(), "state"@, Cell::Text(item.state@))
    &&& always_leaves(command, "fact_reviews"@, review_fields(), "body"@, text_cell(opt_text(item.body)))
    &&& always_leaves(command, "fact_reviews"@, review_fields(), "submitted_at"@, Cell::Text(submitted_at))
    &&& always_leaves(command, "fact_reviews"@, review_fields(), "submitted_date_key"@, date_cell(submitted_at, context.zone))
    &&& always_leaves(command, "fact_reviews"@, review_fields(), "submitted_time_key"@, time_cell(submitted_at, context.zone))
}

/// The row of a review holds its fields, and whose it is, in their columns.
pub proof fn law_a_review_row_holds_what_was_fetched(
    item: ReviewData,
    submitted_at: Seq<char>,
    pr_key: Seq<char>,
    context: Context,
)
    requires
        is_stamped(submitted_at, context),
    ensures
        stores_review(
            review_command(item.id@, pr_key, actor_key(item.author, context), item.state@, opt_text(item.body), submitted_at, stamp_date(submitted_at, context), stamp_time(submitted_at, context)),
            item,
            submitted_at,
            pr_key,
            context,
        ),
{
    reveal(stores_review);
    lemma_actor(item.author, context);
    lemma_stamp(submitted_at, context);
    let command = review_command(item.id@, pr_key, actor_key(item.author, context), item.state@, opt_text(item.body), submitted_at, stamp_date(submitted_at, context), stamp_time(submitted_at, context));
    lemma_reaches_its_column(command, "fact_reviews"@, review_fields(), 0);
    assert(review_fields()[0].name == "review_key"@);
    assert(command.params[0] == Cell::Text(item.id@));
    lemma_reaches_its_column(command, "fact_reviews"@, review_fields(), 1);
    assert(review_fields()[1].name == "pr_key"@);
    assert(command.params[1] == Cell::Text(pr_key));
    lemma_reaches_its_column(command, "fact_reviews"@, review_fields(), 2);
    assert(review_fields()[2].name == "reviewer_key"@);
    assert(command.params[2] == entity_cell(actor_view(item.author), context.bot_suffix));
    lemma_reaches_its_column(command, "fact_reviews"@, review_fields(), 3);
    assert(review_fields()[3].name == "state"@);
    assert(command.params[3] == Cell::Text(item.state@));
    lemma_reaches_its_column(command, "fact_reviews"@, review_fields(), 4);
    assert(review_fields()[4].name == "body"@);
    assert(command.params[4] == text_cell(opt_text(item.body)));
    lemma_reaches_its_column(command, "fact_reviews"@, review_fields(), 5);
    assert(review_fields()[5].name == "submitted_at"@);
    assert(command.params[5] == Cell::Text(submitted_at));
    lemma_reaches_its_column(command, "fact_reviews"@, review_fields(), 6);
    assert(review_fields()[6].name == "submitted_date_key"@);
    assert(command.params[6] == date_cell(submitted_at, context.zone));
    lemma_reaches_its_column(command, "fact_reviews"@, review_fields(), 7);
    assert(review_fields()[7].name == "submitted_time_key"@);
    assert(command.params[7] == time_cell(submitted_at, context.zone));
}

/// The same, from the node of the response on.
#[verifier::opaque]
pub open spec fn stores_review_node(
    command: Command,
    node: Json,
    submitted_at: Seq<char>,
    pr_key: Seq<char>,
    context: Context,
) -> bool {
    &&& keeps_first(command, "fact_reviews"@, review_fields(), "review_key"@, text_cell(text_at(node, "id"@)))
    &&& keeps_first(command, "fact_reviews"@, review_fields(), "pr_key"@, Cell::Text(pr_key))
    &&& keeps_first(command, "fact_reviews"@, review_fields(), "reviewer_key"@, entity_cell(actor_in(field(node, "author"@)), context.bot_suffix))
    &&& always_leaves(command, "fact_reviews"@, review_fields(), "state"@, Cell::Text(text_or(node, "state"@, "COMMENTED"@)))
    &&& always_leaves(command, "fact_reviews"@, review_fields(), "body"@, text_cell(filled(text_at(node, "body"@))))
    &&& always_leaves(command, "fact_reviews"@, review_fields(), "submitted_at"@, Cell::Text(submitted_at))
    &&& always_leaves(command, "fact_reviews"@, review_fields(), "submitted_date_key"@, date_cell(submitted_at, context.zone))
}

/// What a node says of a review reaches the column that it is stored in.
pub proof fn law_a_review_node_reaches_its_columns(
    command: Command,
    item: ReviewData,
    submitted_at: Seq<char>,
    pr_key: Seq<char>,
    context: Context,
    node: Json,
)
    requires
        is_review()(item, node),
        stores_review(command, item, submitted_at, pr_key, context),
    ensures
        stores_review_node(command, node, submitted_at, pr_key, context),
{
    reveal(stores_review);
    reveal(stores_review_node);
}

/// The command stores a comment of a review thread.
#[verifier::opaque]
pub open spec fn stores_review_comment(
    command: Command,
    item: ReviewCommentData,
    pr_key: Seq<char>,
    context: Context,
) -> bool {
    &&& keeps_first(command, "fact_review_comments"@, review_comment_fields(), "comment_key"@, Cell::Text(item.id@))
    &&& keeps_first(command, "fact_review_comments"@, review_comment_fields(), "pr_key"@, Cell::Text(pr_key))
    &&& keeps_first(command, "fact_review_comments"@, review_comment_fields(), "author_key"@, entity_cell(actor_view(item.author), context.bot_suffix))
    &&& always_leaves(command, "fact_review_comments"@, review_comment_fields(), "in_reply_to"@, text_cell(opt_text(item.in_reply_to)))
    &&& always_leaves(command, "fact_review_comments"@, review_comment_fields(), "path"@, text_cell(opt_text(item.path)))
    &&& always_leaves(command, "fact_review_comments"@, review_comment_fields(), "line"@, int_cell(item.line))
    &&& always_leaves(command, "fact_review_comments"@, review_comment_fields(), "body"@, text_cell(opt_text(item.body)))
    &&& keeps_first(command, "fact_review_comments"@, review_comment_fields(), "created_at"@, Cell::Text(item.created_at@))
    &&& keeps_first(command, "fact_review_comments"@, review_comment_fields(), "created_date_key"@, date_cell(item.created_at@, context.zone))
    &&& keeps_first(command, "fact_review_comments"@, review_comment_fields(), "created_time_key"@, time_cell(item.created_at@, context.zone))
}

/// The row of a review comment holds its fields in their columns.
pub proof fn law_a_review_comment_row_holds_what_was_fetched(
    item: ReviewCommentData,
    pr_key: Seq<char>,
    context: Context,
)
    requires
        is_stamped(item.created_at@, context),
    ensures
        stores_review_comment(
            review_comment_command(item.id@, pr_key, actor_key(item.author, context), opt_text(item.in_reply_to), opt_text(item.path), item.line, opt_text(item.body), item.created_at@, stamp_date(item.created_at@, context), stamp_time(item.created_at@, context)),
            item,
            pr_key,
            context,
        ),
{
    reveal(stores_review_comment);
    lemma_actor(item.author, context);
    lemma_stamp(item.created_at@, context);
    let command = review_comment_command(item.id@, pr_key, actor_key(item.author, context), opt_text(item.in_reply_to), opt_text(item.path), item.line, opt_text(item.body), item.created_at@, stamp_date(item.created_at@, context), stamp_time(item.created_at@, context));
    lemma_reaches_its_column(command, "fact_review_comments"@, review_comment_fields(), 0);
    assert(review_comment_fields()[0].name == "comment_key"@);
    assert(command.params[0] == Cell::Text(item.id@));
    lemma_reaches_its_column(command, "fact_review_comments"@, review_comment_fields(), 1);
    assert(review_comment_fields()[1].name == "pr_key"@);
    assert(command.params[1] == Cell::Text(pr_key));
    lemma_reaches_its_column(command, "fact_review_comments"@, review_comment_fields(), 2);
    assert(review_comment_fields()[2].name == "author_key"@);
    assert(command.params[2] == entity_cell(actor_view(item.author), context.bot_suffix));
    lemma_reaches_its_column(command, "fact_review_comments"@, review_comment_fields(), 3);
    assert(review_comment_fields()[3].name == "in_reply_to"@);
    assert(command.params[3] == text_cell(opt_text(item.in_reply_to)));
    lemma_reaches_its_column(command, "fact_review_comments"@, review_comment_fields(), 4);
    assert(review_comment_fields()[4].name == "path"@);
    assert(command.params[4] == text_cell(opt_text(item.path)));
    lemma_reaches_its_column(command, "fact_review_comments"@, review_comment_fields(), 5);
    assert(review_comment_fields()[5].name == "line"@);
    assert(command.params[5] == int_cell(item.line));
    lemma_reaches_its_column(command, "fact_review_comments"@, review_comment_fields(), 6);
    assert(review_comment_fields()[6].name == "body"@);
    assert(command.params[6] == text_cell(opt_text(item.body)));
    lemma_reaches_its_column(command, "fact_review_comments"@, review_comment_fields(), 7);
    assert(review_comment_fields()[7].name == "created_at"@);
    assert(command.params[7] == Cell::Text(item.created_at@));
    lemma_reaches_its_column(command, "fact_review_comments"@, review_comment_fields(), 8);
    assert(review_comment_fields()[8].name == "created_date_key"@);
    assert(command.params[8] == date_cell(item.created_at@, context.zone));
    lemma_reaches_its_column(command, "fact_review_comments"@, review_comment_fields(), 9);
    assert(review_comment_fields()[9].name == "created_time_key"@);
    assert(command.params[9] == time_cell(item.created_at@, context.zone));
}

/// The same, from the node of the response on.
#[verifier::opaque]
pub open spec fn stores_review_comment_node(
    command: Command,
    node: Json,
    pr_key: Seq<char>,
    context: Context,
) -> bool {
    &&& keeps_first(command, "fact_review_comments"@, review_comment_fields(), "comment_key"@, text_cell(text_at(node, "id"@)))
    &&& keeps_first(command, "fact_review_comments"@, review_comment_fields(), "pr_key"@, Cell::Text(pr_key))
    &&& keeps_first(command, "fact_review_comments"@, review_comment_fields(), "author_key"@, entity_cell(actor_in(field(node, "author"@)), context.bot_suffix))
    &&& always_leaves(command, "fact_review_comments"@, review_comment_fields(), "in_reply_to"@, text_cell(inner_text(node, "replyTo"@, "id"@)))
    &&& always_leaves(command, "fact_review_comments"@, review_comment_fields(), "path"@, text_cell(text_at(node, "path"@)))
    &&& always_leaves(command, "fact_review_comments"@, review_comment_fields(), "line"@, number_cell(integer_at(node, "line"@)))
    &&& always_leaves(command, "fact_review_comments"@, review_comment_fields(), "body"@, text_cell(text_at(node, "body"@)))
    &&& keeps_first(command, "fact_review_comments"@, review_comment_fields(), "created_at"@, text_cell(text_at(node, "createdAt"@)))
    &&& keeps_first(command, "fact_review_comments"@, review_comment_fields(), "created_date_key"@, opt_date_cell(text_at(node, "createdAt"@), context.zone))
    &&& keeps_first(command, "fact_review_comments"@, review_comment_fields(), "created_time_key"@, opt_time_cell(text_at(node, "createdAt"@), context.zone))
}

/// What a node says of a review comment reaches the column that it is stored in.
pub proof fn law_a_review_comment_node_reaches_its_columns(
    command: Command,
    item: ReviewCommentData,
    pr_key: Seq<char>,
    context: Context,
    node: Json,
)
    requires
        is_review_comment()(item, node),
        stores_review_comment(command, item, pr_key, context),
    ensures
        stores_review_comment_node(command, node, pr_key, context),
{
    reveal(stores_review_comment);
    reveal(stores_review_comment_node);
}

/// The command stores a comment on a pull request or an issue.
#[verifier::opaque]
pub open spec fn stores_comment(
    command: Command,
    id: Seq<char>,
    parent_type: Seq<char>,
    parent_key: Seq<char>,
    author: Option<ActorReference>,
    body: Option<Seq<char>>,
    created_at: Seq<char>,
    context: Context,
) -> bool {
    &&& keeps_first(command, "fact_issue_comments"@, issue_comment_fields(), "comment_key"@, Cell::Text(id))
    &&& keeps_first(command, "fact_issue_comments"@, issue_comment_fields(), "parent_type"@, Cell::Text(parent_type))
    &&& keeps_first(command, "fact_issue_comments"@, issue_comment_fields(), "parent_key"@, Cell::Text(parent_key))
    &&& keeps_first(command, "fact_issue_comments"@, issue_comment_fields(), "author_key"@, entity_cell(actor_view(author), context.bot_suffix))
    &&& always_leaves(command, "fact_issue_comments"@, issue_comment_fields(), "in_reply_to"@, Cell::Null)
    &&& always_leaves(command, "fact_issue_comments"@, issue_comment_fields(), "body"@, text_cell(body))
    &&& keeps_first(command, "fact_issue_comments"@, issue_comment_fields(), "created_at"@, Cell::Text(created_at))
    &&& keeps_first(command, "fact_issue_comments"@, issue_comment_fields(), "created_date_key"@, date_cell(created_at, context.zone))
    &&& keeps_first(command, "fact_issue_comments"@, issue_comment_fields(), "created_time_key"@, time_cell(created_at, context.zone))
}

/// The row of a comment holds its fields, and what it is on, in their columns.
pub proof fn law_a_comment_row_holds_what_was_fetched(
    id: Seq<char>,
    parent_type: Seq<char>,
    parent_key: Seq<char>,
    author: Option<ActorReference>,
    body: Option<Seq<char>>,
    created_at: Seq<char>,
    context: Context,
)
    requires
        is_stamped(created_at, context),
    ensures
        stores_comment(
            issue_comment_command(id, parent_type, parent_key, actor_key(author, context), None, body, created_at, stamp_date(created_at, context), stamp_time(created_at, context)),
            id,
            parent_type,
            parent_key,
            author,
            body,
            created_at,
            context,
        ),
{
    reveal(stores_comment);
    lemma_actor(author, context);
    lemma_stamp(created_at, context);
    let command = issue_comment_command(id, parent_type, parent_key, actor_key(author, context), None, body, created_at, stamp_date(created_at, context), stamp_time(created_at, context));
    lemma_reaches_its_column(command, "fact_issue_comments"@, issue_comment_fields(), 0);
    assert(issue_comment_fields()[0].name == "comment_key"@);
    assert(command.params[0] == Cell::Text(id));
    lemma_reaches_its_column(command, "fact_issue_comments"@, issue_comment_fields(), 1);
    assert(issue_comment_fields()[1].name == "parent_type"@);
    assert(command.params[1] == Cell::Text(parent_type));
    lemma_reaches_its_column(command, "fact_issue_comments"@, issue_comment_fields(), 2);
    assert(issue_comment_fields()[2].name == "parent_key"@);
    assert(command.params[2] == Cell::Text(parent_key));
    lemma_reaches_its_column(command, "fact_issue_comments"@, issue_comment_fields(), 3);
    assert(issue_comment_fields()[3].name == "author_key"@);
    assert(command.params[3] == entity_cell(actor_view(author), context.bot_suffix));
    lemma_reaches_its_column(command, "fact_issue_comments"@, issue_comment_fields(), 4);
    assert(issue_comment_fields()[4].name == "in_reply_to"@);
    assert(command.params[4] == Cell::Null);
    lemma_reaches_its_column(command, "fact_issue_comments"@, issue_comment_fields(), 5);
    assert(issue_comment_fields()[5].name == "body"@);
    assert(command.params[5] == text_cell(body));
    lemma_reaches_its_column(command, "fact_issue_comments"@, issue_comment_fields(), 6);
    assert(issue_comment_fields()[6].name == "created_at"@);
    assert(command.params[6] == Cell::Text(created_at));
    lemma_reaches_its_column(command, "fact_issue_comments"@, issue_comment_fields(), 7);
    assert(issue_comment_fields()[7].name == "created_date_key"@);
    assert(command.params[7] == date_cell(created_at, context.zone));
    lemma_reaches_its_column(command, "fact_issue_comments"@, issue_comment_fields(), 8);
    assert(issue_comment_fields()[8].name == "created_time_key"@);
    assert(command.params[8] == time_cell(created_at, context.zone));
}

/// The command stores a check run of a commit.
#[verifier::opaque]
pub open spec fn stores_check_run(
    command: Command,
    item: CheckRunData,
    pr_key: Seq<char>,
    head_sha: Seq<char>,
) -> bool {
    &&& keeps_first(command, "fact_check_runs"@, check_run_fields(), "check_run_key"@, Cell::Text(item.id@))
    &&& keeps_first(command, "fact_check_runs"@, check_run_fields(), "pr_key"@, Cell::Text(pr_key))
    &&& keeps_first(command, "fact_check_runs"@, check_run_fields(), "head_sha"@, Cell::Text(head_sha))
    &&& keeps_first(command, "fact_check_runs"@, check_run_fields(), "name"@, Cell::Text(item.name@))
    &&& always_leaves(command, "fact_check_runs"@, check_run_fields(), "status"@, Cell::Text(item.status@))
    &&& always_leaves(command, "fact_check_runs"@, check_run_fields(), "conclusion"@, text_cell(opt_text(item.conclusion)))
    &&& always_leaves(command, "fact_check_runs"@, check_run_fields(), "started_at"@, text_cell(opt_text(item.started_at)))
    &&& always_leaves(command, "fact_check_runs"@, check_run_fields(), "completed_at"@, text_cell(opt_text(item.completed_at)))
}

/// The row of a check run holds its fields in their columns.
pub proof fn law_a_check_run_row_holds_what_was_fetched(
    item: CheckRunData,
    pr_key: Seq<char>,
    head_sha: Seq<char>,
)
    ensures
        stores_check_run(
            check_run_command(item.id@, pr_key, head_sha, item.name@, item.status@, opt_text(item.conclusion), opt_text(item.started_at), opt_text(item.completed_at)),
            item,
            pr_key,
            head_sha,
        ),
{
    reveal(stores_check_run);
    let command = check_run_command(item.id@, pr_key, head_sha, item.name@, item.status@, opt_text(item.conclusion), opt_text(item.started_at), opt_text(item.completed_at));
    lemma_reaches_its_column(command, "fact_check_runs"@, check_run_fields(), 0);
    assert(check_run_fields()[0].name == "check_run_key"@);
    assert(command.params[0] == Cell::Text(item.id@));
    lemma_reaches_its_column(command, "fact_check_runs"@, check_run_fields(), 1);
    assert(check_run_fields()[1].name == "pr_key"@);
    assert(command.params[1] == Cell::Text(pr_key));
    lemma_reaches_its_column(command, "fact_check_runs"@, check_run_fields(), 2);
    assert(check_run_fields()[2].name == "head_sha"@);
    assert(command.params[2] == Cell::Text(head_sha));
    lemma_reaches_its_column(command, "fact_check_runs"@, check_run_fields(), 3);
    assert(check_run_fields()[3].name == "name"@);
    assert(command.params[3] == Cell::Text(item.name@));
    lemma_reaches_its_column(command, "fact_check_runs"@, check_run_fields(), 4);
    assert(check_run_fields()[4].name == "status"@);
    assert(command.params[4] == Cell::Text(item.status@));
    lemma_reaches_its_column(command, "fact_check_runs"@, check_run_fields(), 5);
    assert(check_run_fields()[5].name == "conclusion"@);
    assert(command.params[5] == text_cell(opt_text(item.conclusion)));
    lemma_reaches_its_column(command, "fact_check_runs"@, check_run_fields(), 6);
    assert(check_run_fields()[6].name == "started_at"@);
    assert(command.params[6] == text_cell(opt_text(item.started_at)));
    lemma_reaches_its_column(command, "fact_check_runs"@, check_run_fields(), 7);
    assert(check_run_fields()[7].name == "completed_at"@);
    assert(command.params[7] == text_cell(opt_text(item.completed_at)));
}

/// The same, from the node of the response on.
#[verifier::opaque]
pub open spec fn stores_check_run_node(
    command: Command,
    node: Json,
    pr_key: Seq<char>,
    head_sha: Seq<char>,
) -> bool {
    &&& keeps_first(command, "fact_check_runs"@, check_run_fields(), "check_run_key"@, text_cell(text_at(node, "id"@)))
    &&& keeps_first(command, "fact_check_runs"@, check_run_fields(), "pr_key"@, Cell::Text(pr_key))
    &&& keeps_first(command, "fact_check_runs"@, check_run_fields(), "head_sha"@, Cell::Text(head_sha))
    &&& keeps_first(command, "fact_check_runs"@, check_run_fields(), "name"@, Cell::Text(text_or(node, "name"@, Seq::empty())))
    &&& always_leaves(command, "fact_check_runs"@, check_run_fields(), "status"@, Cell::Text(text_or(node, "status"@, "COMPLETED"@)))
    &&& always_leaves(command, "fact_check_runs"@, check_run_fields(), "conclusion"@, text_cell(text_at(node, "conclusion"@)))
    &&& always_leaves(command, "fact_check_runs"@, check_run_fields(), "started_at"@, text_cell(text_at(node, "startedAt"@)))
    &&& always_leaves(command, "fact_check_runs"@, check_run_fields(), "completed_at"@, text_cell(text_at(node, "completedAt"@)))
}

/// What a node says of a check run reaches the column that it is stored in.
pub proof fn law_a_check_run_node_reaches_its_columns(
    command: Command,
    item: CheckRunData,
    pr_key: Seq<char>,
    head_sha: Seq<char>,
    node: Json,
)
    requires
        is_check_run()(item, node),
        stores_check_run(command, item, pr_key, head_sha),
    ensures
        stores_check_run_node(command, node, pr_key, head_sha),
{
    reveal(stores_check_run);
    reveal(stores_check_run_node);
}

/// The command stores a changed file.
#[verifier::opaque]
pub open spec fn stores_file(
    command: Command,
    item: FileDiffData,
    pr_key: Seq<char>,
    repo_key: Seq<char>,
) -> bool {
    &&& keeps_first(command, "fact_file_diffs"@, file_diff_fields(), "file_diff_key"@, Cell::Text(pr_key + ":"@ + item.path@))
    &&& keeps_first(command, "fact_file_diffs"@, file_diff_fields(), "pr_key"@, Cell::Text(pr_key))
    &&& keeps_first(command, "fact_file_diffs"@, file_diff_fields(), "repo_key"@, Cell::Text(repo_key))
    &&& keeps_first(command, "fact_file_diffs"@, file_diff_fields(), "file_path"@, Cell::Text(item.path@))
    &&& always_leaves(command, "fact_file_diffs"@, file_diff_fields(), "previous_path"@, Cell::Null)
    &&& always_leaves(command, "fact_file_diffs"@, file_diff_fields(), "change_type"@, Cell::Text(item.change_type@))
    &&& fills(command, "fact_file_diffs"@, file_diff_fields(), "patch"@, Cell::Null)
    &&& always_leaves(command, "fact_file_diffs"@, file_diff_fields(), "additions"@, Cell::Integer(item.additions as int))
    &&& always_leaves(command, "fact_file_diffs"@, file_diff_fields(), "deletions"@, Cell::Integer(item.deletions as int))
}

/// The row of a changed file holds its fields in their columns.
pub proof fn law_a_file_row_holds_what_was_fetched(
    item: FileDiffData,
    pr_key: Seq<char>,
    repo_key: Seq<char>,
)
    ensures
        stores_file(
            file_diff_command(pr_key, repo_key, item.path@, None, item.change_type@, None, item.additions as int, item.deletions as int),
            item,
            pr_key,
            repo_key,
        ),
{
    reveal(stores_file);
    let command = file_diff_command(pr_key, repo_key, item.path@, None, item.change_type@, None, item.additions as int, item.deletions as int);
    lemma_reaches_its_column(command, "fact_file_diffs"@, file_diff_fields(), 0);
    assert(file_diff_fields()[0].name == "file_diff_key"@);
    assert(command.params[0] == Cell::Text(pr_key + ":"@ + item.path@));
    lemma_reaches_its_column(command, "fact_file_diffs"@, file_diff_fields(), 1);
    assert(file_diff_fields()[1].name == "pr_key"@);
    assert(command.params[1] == Cell::Text(pr_key));
    lemma_reaches_its_column(command, "fact_file_diffs"@, file_diff_fields(), 2);
    assert(file_diff_fields()[2].name == "repo_key"@);
    assert(command.params[2] == Cell::Text(repo_key));
    lemma_reaches_its_column(command, "fact_file_diffs"@, file_diff_fields(), 3);
    assert(file_diff_fields()[3].name == "file_path"@);
    assert(command.params[3] == Cell::Text(item.path@));
    lemma_reaches_its_column(command, "fact_file_diffs"@, file_diff_fields(), 4);
    assert(file_diff_fields()[4].name == "previous_path"@);
    assert(command.params[4] == Cell::Null);
    lemma_reaches_its_column(command, "fact_file_diffs"@, file_diff_fields(), 5);
    assert(file_diff_fields()[5].name == "change_type"@);
    assert(command.params[5] == Cell::Text(item.change_type@));
    lemma_reaches_its_column(command, "fact_file_diffs"@, file_diff_fields(), 6);
    assert(file_diff_fields()[6].name == "patch"@);
    assert(command.params[6] == Cell::Null);
    lemma_reaches_its_column(command, "fact_file_diffs"@, file_diff_fields(), 7);
    assert(file_diff_fields()[7].name == "additions"@);
    assert(command.params[7] == Cell::Integer(item.additions as int));
    lemma_reaches_its_column(command, "fact_file_diffs"@, file_diff_fields(), 8);
    assert(file_diff_fields()[8].name == "deletions"@);
    assert(command.params[8] == Cell::Integer(item.deletions as int));
}

/// The same, from the node of the response on.
#[verifier::opaque]
pub open spec fn stores_file_node(
    command: Command,
    node: Json,
    pr_key: Seq<char>,
    repo_key: Seq<char>,
) -> bool {
    &&& keeps_first(command, "fact_file_diffs"@, file_diff_fields(), "pr_key"@, Cell::Text(pr_key))
    &&& keeps_first(command, "fact_file_diffs"@, file_diff_fields(), "repo_key"@, Cell::Text(repo_key))
    &&& keeps_first(command, "fact_file_diffs"@, file_diff_fields(), "file_path"@, text_cell(text_at(node, "path"@)))
    &&& always_leaves(command, "fact_file_diffs"@, file_diff_fields(), "change_type"@, Cell::Text(text_or(node, "changeType"@, "MODIFIED"@)))
    &&& always_leaves(command, "fact_file_diffs"@, file_diff_fields(), "additions"@, Cell::Integer(count_at(node, "additions"@)))
    &&& always_leaves(command, "fact_file_diffs"@, file_diff_fields(), "deletions"@, Cell::Integer(count_at(node, "deletions"@)))
}

/// What a node says of a changed file reaches the column that it is stored in.
pub proof fn law_a_file_node_reaches_its_columns(
    command: Command,
    item: FileDiffData,
    pr_key: Seq<char>,
    repo_key: Seq<char>,
    node: Json,
)
    requires
        is_file()(item, node),
        stores_file(command, item, pr_key, repo_key),
    ensures
        stores_file_node(command, node, pr_key, repo_key),
{
    reveal(stores_file);
    reveal(stores_file_node);
}

/// The command stores the entity of an account.
#[verifier::opaque]
pub open spec fn stores_entity(
    command: Command,
    actor: ActorReference,
    context: Context,
) -> bool {
    &&& keeps_first(command, "dim_entities"@, entity_fields(), "entity_key"@, entity_cell(Some((actor.login@, actor.actor_type@)), context.bot_suffix))
    &&& always_leaves(command, "dim_entities"@, entity_fields(), "entity_type"@, Cell::Text(
        if is_bot(actor.login@, actor.actor_type@, context.bot_suffix) {
            "bot"@
        } else {
            "user"@
        },
    ))
    &&& keeps_first(command, "dim_entities"@, entity_fields(), "login"@, Cell::Text(lowercase(actor.login@)))
    &&& always_leaves(command, "dim_entities"@, entity_fields(), "is_human"@, flag_cell(!is_bot(actor.login@, actor.actor_type@, context.bot_suffix)))
    &&& always_leaves(command, "dim_entities"@, entity_fields(), "is_bot"@, flag_cell(is_bot(actor.login@, actor.actor_type@, context.bot_suffix)))
    &&& keeps_first(command, "dim_entities"@, entity_fields(), "name"@, Cell::Text(actor.login@))
}

/// The row of an entity holds the login of its account and says whether it is a
/// bot's.
pub proof fn law_an_entity_row_holds_its_account(
    actor: ActorReference,
    context: Context,
)
    ensures
        stores_entity(
            entity_command(actor.login@, is_bot_account(actor.login@, actor.actor_type@, context.bot_suffix)),
            actor,
            context,
        ),
{
    reveal(stores_entity);
    lemma_actor(Some(actor), context);
    let command = entity_command(actor.login@, is_bot_account(actor.login@, actor.actor_type@, context.bot_suffix));
    lemma_reaches_its_column(command, "dim_entities"@, entity_fields(), 0);
    assert(entity_fields()[0].name == "entity_key"@);
    assert(command.params[0] == entity_cell(Some((actor.login@, actor.actor_type@)), context.bot_suffix));
    lemma_reaches_its_column(command, "dim_entities"@, entity_fields(), 1);
    assert(entity_fields()[1].name == "entity_type"@);
    assert(command.params[1] == Cell::Text(
        if is_bot(actor.login@, actor.actor_type@, context.bot_suffix) {
            "bot"@
        } else {
            "user"@
        },
    ));
    lemma_reaches_its_column(command, "dim_entities"@, entity_fields(), 2);
    assert(entity_fields()[2].name == "login"@);
    assert(command.params[2] == Cell::Text(lowercase(actor.login@)));
    lemma_reaches_its_column(command, "dim_entities"@, entity_fields(), 3);
    assert(entity_fields()[3].name == "is_human"@);
    assert(command.params[3] == flag_cell(!is_bot(actor.login@, actor.actor_type@, context.bot_suffix)));
    lemma_reaches_its_column(command, "dim_entities"@, entity_fields(), 4);
    assert(entity_fields()[4].name == "is_bot"@);
    assert(command.params[4] == flag_cell(is_bot(actor.login@, actor.actor_type@, context.bot_suffix)));
    lemma_reaches_its_column(command, "dim_entities"@, entity_fields(), 5);
    assert(entity_fields()[5].name == "name"@);
    assert(command.params[5] == Cell::Text(actor.login@));
}

proof fn lemma_owner(repo_key: Seq<char>, owner: Seq<char>, short: Seq<char>)
    requires
        repo_key == owner + "/"@ + short,
        !owner.contains('/'),
    ensures
        owner_and_name(repo_key) == (owner, short),
{
    reveal_strlit("/");
    let at = owner.len() as int;
    assert(repo_key[at] == '/');
    assert forall|k: int| 0 <= k < at implies repo_key[k] != '/' by {
        assert(repo_key[k] == owner[k]);
        assert(owner.contains(owner[k]));
    }
    assert(crate::text::is_first_at(repo_key, '/', at));
    let found = crate::text::first_index(repo_key, '/');
    assert(crate::text::is_first_at(repo_key, '/', found));
    assert(found == at);
    assert(repo_key.take(at) =~= owner);
    assert(repo_key.skip(at + 1) =~= short);
}

/// The command stores a repository.
#[verifier::opaque]
pub open spec fn stores_repository(
    command: Command,
    repo_key: Seq<char>,
    owner: Seq<char>,
    short: Seq<char>,
    primary_language: Option<Seq<char>>,
    is_fork: bool,
    is_private: bool,
    default_branch: Option<Seq<char>>,
    created_at: Option<Seq<char>>,
) -> bool {
    &&& keeps_first(command, "dim_repositories"@, repository_fields(), "repo_key"@, Cell::Text(repo_key))
    &&& keeps_first(command, "dim_repositories"@, repository_fields(), "owner"@, Cell::Text(owner))
    &&& keeps_first(command, "dim_repositories"@, repository_fields(), "name"@, Cell::Text(short))
    &&& always_leaves(command, "dim_repositories"@, repository_fields(), "primary_language"@, text_cell(primary_language))
    &&& always_leaves(command, "dim_repositories"@, repository_fields(), "is_fork"@, flag_cell(is_fork))
    &&& always_leaves(command, "dim_repositories"@, repository_fields(), "is_private"@, flag_cell(is_private))
    &&& always_leaves(command, "dim_repositories"@, repository_fields(), "default_branch"@, text_cell(default_branch))
    &&& fills(command, "dim_repositories"@, repository_fields(), "created_at"@, text_cell(created_at))
}

/// The row of a repository holds the owner and the name that its key is made of,
/// and its metadata, in their columns.
pub proof fn law_a_repository_row_holds_its_metadata(
    repo_key: Seq<char>,
    owner: Seq<char>,
    short: Seq<char>,
    primary_language: Option<Seq<char>>,
    is_fork: bool,
    is_private: bool,
    default_branch: Option<Seq<char>>,
    created_at: Option<Seq<char>>,
)
    requires
        repo_key == owner + "/"@ + short,
        !owner.contains('/'),
    ensures
        stores_repository(
            repository_command(repo_key, primary_language, is_fork, is_private, default_branch, created_at),
            repo_key,
            owner,
            short,
            primary_language,
            is_fork,
            is_private,
            default_branch,
            created_at,
        ),
{
    reveal(stores_repository);
    lemma_owner(repo_key, owner, short);
    let command = repository_command(repo_key, primary_language, is_fork, is_private, default_branch, created_at);
    lemma_reaches_its_column(command, "dim_repositories"@, repository_fields(), 0);
    assert(repository_fields()[0].name == "repo_key"@);
    assert(command.params[0] == Cell::Text(repo_key));
    lemma_reaches_its_column(command, "dim_repositories"@, repository_fields(), 1);
    assert(repository_fields()[1].name == "owner"@);
    assert(command.params[1] == Cell::Text(owner));
    lemma_reaches_its_column(command, "dim_repositories"@, repository_fields(), 2);
    assert(repository_fields()[2].name == "name"@);
    assert(command.params[2] == Cell::Text(short));
    lemma_reaches_its_column(command, "dim_repositories"@, repository_fields(), 3);
    assert(repository_fields()[3].name == "primary_language"@);
    assert(command.params[3] == text_cell(primary_language));
    lemma_reaches_its_column(command, "dim_repositories"@, repository_fields(), 4);
    assert(repository_fields()[4].name == "is_fork"@);
    assert(command.params[4] == flag_cell(is_fork));
    lemma_reaches_its_column(command, "dim_repositories"@, repository_fields(), 5);
    assert(repository_fields()[5].name == "is_private"@);
    assert(command.params[5] == flag_cell(is_private));
    lemma_reaches_its_column(command, "dim_repositories"@, repository_fields(), 6);
    assert(repository_fields()[6].name == "default_branch"@);
    assert(command.params[6] == text_cell(default_branch));
    lemma_reaches_its_column(command, "dim_repositories"@, repository_fields(), 7);
    assert(repository_fields()[7].name == "created_at"@);
    assert(command.params[7] == text_cell(created_at));
}

/// The command stores a label.
#[verifier::opaque]
pub open spec fn stores_label(
    command: Command,
    item: LabelData,
    repo_key: Seq<char>,
) -> bool {
    &&& keeps_first(command, "labels"@, label_fields(), "id"@, Cell::Text(item.id@))
    &&& keeps_first(command, "labels"@, label_fields(), "repo_key"@, Cell::Text(repo_key))
    &&& always_leaves(command, "labels"@, label_fields(), "name"@, Cell::Text(item.name@))
    &&& always_leaves(command, "labels"@, label_fields(), "color"@, Cell::Text(item.color@))
    &&& always_leaves(command, "labels"@, label_fields(), "description"@, Cell::Text(item.description@))
}

/// The row of a label holds its fields in their columns.
pub proof fn law_a_label_row_holds_what_was_fetched(
    item: LabelData,
    repo_key: Seq<char>,
)
    ensures
        stores_label(
            label_command(repo_key, item),
            item,
            repo_key,
        ),
{
    reveal(stores_label);
    let command = label_command(repo_key, item);
    lemma_reaches_its_column(command, "labels"@, label_fields(), 0);
    assert(label_fields()[0].name == "id"@);
    assert(command.params[0] == Cell::Text(item.id@));
    lemma_reaches_its_column(command, "labels"@, label_fields(), 1);
    assert(label_fields()[1].name == "repo_key"@);
    assert(command.params[1] == Cell::Text(repo_key));
    lemma_reaches_its_column(command, "labels"@, label_fields(), 2);
    assert(label_fields()[2].name == "name"@);
    assert(command.params[2] == Cell::Text(item.name@));
    lemma_reaches_its_column(command, "labels"@, label_fields(), 3);
    assert(label_fields()[3].name == "color"@);
    assert(command.params[3] == Cell::Text(item.color@));
    lemma_reaches_its_column(command, "labels"@, label_fields(), 4);
    assert(label_fields()[4].name == "description"@);
    assert(command.params[4] == Cell::Text(item.description@));
}

/// The same, from the node of the response on.
#[verifier::opaque]
pub open spec fn stores_label_node(
    command: Command,
    node: Json,
    repo_key: Seq<char>,
) -> bool {
    &&& keeps_first(command, "labels"@, label_fields(), "id"@, text_cell(text_at(node, "id"@)))
    &&& keeps_first(command, "labels"@, label_fields(), "repo_key"@, Cell::Text(repo_key))
    &&& always_leaves(command, "labels"@, label_fields(), "name"@, Cell::Text(text_or(node, "name"@, Seq::empty())))
    &&& always_leaves(command, "labels"@, label_fields(), "color"@, Cell::Text(text_or(node, "color"@, Seq::empty())))
    &&& always_leaves(command, "labels"@, label_fields(), "description"@, Cell::Text(text_or(node, "description"@, Seq::empty())))
}

/// What a node says of a label reaches the column that it is stored in.
pub proof fn law_a_label_node_reaches_its_columns(
    command: Command,
    item: LabelData,
    repo_key: Seq<char>,
    node: Json,
)
    requires
        is_label()(item, node),
        stores_label(command, item, repo_key),
    ensures
        stores_label_node(command, node, repo_key),
{
    reveal(stores_label);
    reveal(stores_label_node);
}

/// The command stores a milestone.
#[verifier::opaque]
pub open spec fn stores_milestone(
    command: Command,
    item: MilestoneData,
    repo_key: Seq<char>,
) -> bool {
    &&& keeps_first(command, "milestones"@, milestone_fields(), "id"@, Cell::Text(item.id@))
    &&& keeps_first(command, "milestones"@, milestone_fields(), "repo_key"@, Cell::Text(repo_key))
    &&& keeps_first(command, "milestones"@, milestone_fields(), "number"@, Cell::Integer(item.number as int))
    &&& always_leaves(command, "milestones"@, milestone_fields(), "title"@, Cell::Text(item.title@))
    &&& always_leaves(command, "milestones"@, milestone_fields(), "description"@, text_cell(opt_text(item.description)))
    &&& always_leaves(command, "milestones"@, milestone_fields(), "state"@, Cell::Text(lowercase(item.state@)))
    &&& always_leaves(command, "milestones"@, milestone_fields(), "due_on"@, text_cell(opt_text(item.due_on)))
    &&& keeps_first(command, "milestones"@, milestone_fields(), "created_at"@, text_cell(opt_text(item.created_at)))
}

/// The row of a milestone holds its fields in their columns.
pub proof fn law_a_milestone_row_holds_what_was_fetched(
    item: MilestoneData,
    repo_key: Seq<char>,
)
    ensures
        stores_milestone(
            milestone_command(repo_key, item),
            item,
            repo_key,
        ),
{
    reveal(stores_milestone);
    let command = milestone_command(repo_key, item);
    lemma_reaches_its_column(command, "milestones"@, milestone_fields(), 0);
    assert(milestone_fields()[0].name == "id"@);
    assert(command.params[0] == Cell::Text(item.id@));
    lemma_reaches_its_column(command, "milestones"@, milestone_fields(), 1);
    assert(milestone_fields()[1].name == "repo_key"@);
    assert(command.params[1] == Cell::Text(repo_key));
    lemma_reaches_its_column(command, "milestones"@, milestone_fields(), 2);
    assert(milestone_fields()[2].name == "number"@);
    assert(command.params[2] == Cell::Integer(item.number as int));
    lemma_reaches_its_column(command, "milestones"@, milestone_fields(), 3);
    assert(milestone_fields()[3].name == "title"@);
    assert(command.params[3] == Cell::Text(item.title@));
    lemma_reaches_its_column(command, "milestones"@, milestone_fields(), 4);
    assert(milestone_fields()[4].name == "description"@);
    assert(command.params[4] == text_cell(opt_text(item.description)));
    lemma_reaches_its_column(command, "milestones"@, milestone_fields(), 5);
    assert(milestone_fields()[5].name == "state"@);
    assert(command.params[5] == Cell::Text(lowercase(item.state@)));
    lemma_reaches_its_column(command, "milestones"@, milestone_fields(), 6);
    assert(milestone_fields()[6].name == "due_on"@);
    assert(command.params[6] == text_cell(opt_text(item.due_on)));
    lemma_reaches_its_column(command, "milestones"@, milestone_fields(), 7);
    assert(milestone_fields()[7].name == "created_at"@);
    assert(command.params[7] == text_cell(opt_text(item.created_at)));
}

/// The same, from the node of the response on.
#[verifier::opaque]
pub open spec fn stores_milestone_node(
    command: Command,
    node: Json,
    repo_key: Seq<char>,
) -> bool {
    &&& keeps_first(command, "milestones"@, milestone_fields(), "id"@, text_cell(text_at(node, "id"@)))
    &&& keeps_first(command, "milestones"@, milestone_fields(), "repo_key"@, Cell::Text(repo_key))
    &&& keeps_first(command, "milestones"@, milestone_fields(), "number"@, Cell::Integer(count_at(node, "number"@)))
    &&& always_leaves(command, "milestones"@, milestone_fields(), "title"@, Cell::Text(text_or(node, "title"@, Seq::empty())))
    &&& always_leaves(command, "milestones"@, milestone_fields(), "description"@, text_cell(text_at(node, "description"@)))
    &&& always_leaves(command, "milestones"@, milestone_fields(), "state"@, Cell::Text(lowercase(text_or(node, "state"@, "OPEN"@))))
    &&& always_leaves(command, "milestones"@, milestone_fields(), "due_on"@, text_cell(text_at(node, "dueOn"@)))
    &&& keeps_first(command, "milestones"@, milestone_fields(), "created_at"@, text_cell(text_at(node, "createdAt"@)))
}

/// What a value says of a milestone reaches the column that it is stored in.
pub proof fn law_a_milestone_node_reaches_its_columns(
    command: Command,
    item: MilestoneData,
    repo_key: Seq<char>,
    node: Json,
)
    requires
        is_milestone(item, node),
        stores_milestone(command, item, repo_key),
    ensures
        stores_milestone_node(command, node, repo_key),
{
    reveal(stores_milestone);
    reveal(stores_milestone_node);
}

/// The id of a milestone, or null.
pub open spec fn milestone_cell(milestone: Option<MilestoneData>) -> Cell {
    match milestone {
        Some(milestone) => Cell::Text(milestone.id@),
        None => Cell::Null,
    }
}

/// The command stores the row of an issue.
#[verifier::opaque]
pub open spec fn stores_issue(
    command: Command,
    item: IssueData,
    repo_key: Seq<char>,
    context: Context,
) -> bool {
    &&& keeps_first(command, "issues"@, issue_fields(), "id"@, Cell::Text(item.id@))
    &&& keeps_first(command, "issues"@, issue_fields(), "repo_key"@, Cell::Text(repo_key))
    &&& keeps_first(command, "issues"@, issue_fields(), "number"@, Cell::Integer(item.number as int))
    &&& always_leaves(command, "issues"@, issue_fields(), "title"@, Cell::Text(item.title@))
    &&& always_leaves(command, "issues"@, issue_fields(), "body"@, text_cell(opt_text(item.body)))
    &&& always_leaves(command, "issues"@, issue_fields(), "state"@, Cell::Text(item.state@))
    &&& always_leaves(command, "issues"@, issue_fields(), "state_reason"@, text_cell(opt_text(item.state_reason)))
    &&& always_leaves(command, "issues"@, issue_fields(), "author_key"@, entity_cell(actor_view(item.author), context.bot_suffix))
    &&& always_leaves(command, "issues"@, issue_fields(), "milestone_id"@, milestone_cell(item.milestone))
    &&& always_leaves(command, "issues"@, issue_fields(), "comment_count"@, size_cell(item.comments@.len() as int))
    &&& keeps_first(command, "issues"@, issue_fields(), "created_at"@, Cell::Text(item.created_at@))
    &&& always_leaves(command, "issues"@, issue_fields(), "updated_at"@, Cell::Text(item.updated_at@))
    &&& always_leaves(command, "issues"@, issue_fields(), "closed_at"@, text_cell(opt_text(item.closed_at)))
    &&& always_leaves(command, "issues"@, issue_fields(), "created_date_key"@, date_cell(item.created_at@, context.zone))
}

/// The row of an issue holds its fields in their columns.
pub proof fn law_an_issue_row_holds_what_was_fetched(
    item: IssueData,
    repo_key: Seq<char>,
    context: Context,
)
    requires
        is_stamped(item.created_at@, context),
        item.comments@.len() <= i64::MAX,
    ensures
        stores_issue(
            issue_command(repo_key, item, Some(actor_key(item.author, context)), Some(stamp_date(item.created_at@, context))),
            item,
            repo_key,
            context,
        ),
{
    reveal(stores_issue);
    lemma_actor(item.author, context);
    lemma_stamp(item.created_at@, context);
    let command = issue_command(repo_key, item, Some(actor_key(item.author, context)), Some(stamp_date(item.created_at@, context)));
    lemma_reaches_its_column(command, "issues"@, issue_fields(), 0);
    assert(issue_fields()[0].name == "id"@);
    assert(command.params[0] == Cell::Text(item.id@));
    lemma_reaches_its_column(command, "issues"@, issue_fields(), 1);
    assert(issue_fields()[1].name == "repo_key"@);
    assert(command.params[1] == Cell::Text(repo_key));
    lemma_reaches_its_column(command, "issues"@, issue_fields(), 2);
    assert(issue_fields()[2].name == "number"@);
    assert(command.params[2] == Cell::Integer(item.number as int));
    lemma_reaches_its_column(command, "issues"@, issue_fields(), 3);
    assert(issue_fields()[3].name == "title"@);
    assert(command.params[3] == Cell::Text(item.title@));
    lemma_reaches_its_column(command, "issues"@, issue_fields(), 4);
    assert(issue_fields()[4].name == "body"@);
    assert(command.params[4] == text_cell(opt_text(item.body)));
    lemma_reaches_its_column(command, "issues"@, issue_fields(), 5);
    assert(issue_fields()[5].name == "state"@);
    assert(command.params[5] == Cell::Text(item.state@));
    lemma_reaches_its_column(command, "issues"@, issue_fields(), 6);
    assert(issue_fields()[6].name == "state_reason"@);
    assert(command.params[6] == text_cell(opt_text(item.state_reason)));
    lemma_reaches_its_column(command, "issues"@, issue_fields(), 7);
    assert(issue_fields()[7].name == "author_key"@);
    assert(command.params[7] == entity_cell(actor_view(item.author), context.bot_suffix));
    lemma_reaches_its_column(command, "issues"@, issue_fields(), 8);
    assert(issue_fields()[8].name == "milestone_id"@);
    assert(command.params[8] == milestone_cell(item.milestone));
    lemma_reaches_its_column(command, "issues"@, issue_fields(), 9);
    assert(issue_fields()[9].name == "comment_count"@);
    assert(command.params[9] == size_cell(item.comments@.len() as int));
    lemma_reaches_its_column(command, "issues"@, issue_fields(), 10);
    assert(issue_fields()[10].name == "created_at"@);
    assert(command.params[10] == Cell::Text(item.created_at@));
    lemma_reaches_its_column(command, "issues"@, issue_fields(), 11);
    assert(issue_fields()[11].name == "updated_at"@);
    assert(command.params[11] == Cell::Text(item.updated_at@));
    lemma_reaches_its_column(command, "issues"@, issue_fields(), 12);
    assert(issue_fields()[12].name == "closed_at"@);
    assert(command.params[12] == text_cell(opt_text(item.closed_at)));
    lemma_reaches_its_column(command, "issues"@, issue_fields(), 13);
    assert(issue_fields()[13].name == "created_date_key"@);
    assert(command.params[13] == date_cell(item.created_at@, context.zone));
}

/// The same, from the node of the response on.
#[verifier::opaque]
pub open spec fn stores_issue_node(
    command: Command,
    node: Json,
    repo_key: Seq<char>,
    context: Context,
) -> bool {
    &&& keeps_first(command, "issues"@, issue_fields(), "id"@, text_cell(text_at(node, "id"@)))
    &&& keeps_first(command, "issues"@, issue_fields(), "repo_key"@, Cell::Text(repo_key))
    &&& keeps_first(command, "issues"@, issue_fields(), "number"@, Cell::Integer(count_at(node, "number"@)))
    &&& always_leaves(command, "issues"@, issue_fields(), "title"@, Cell::Text(text_or(node, "title"@, Seq::empty())))
    &&& always_leaves(command, "issues"@, issue_fields(), "body"@, text_cell(text_at(node, "body"@)))
    &&& always_leaves(command, "issues"@, issue_fields(), "state"@, Cell::Text(lowercase(text_or(node, "state"@, "OPEN"@))))
    &&& always_leaves(command, "issues"@, issue_fields(), "state_reason"@, text_cell(lowered(text_at(node, "stateReason"@))))
    &&& always_leaves(command, "issues"@, issue_fields(), "author_key"@, entity_cell(actor_in(field(node, "author"@)), context.bot_suffix))
    &&& keeps_first(command, "issues"@, issue_fields(), "created_at"@, text_cell(text_at(node, "createdAt"@)))
    &&& always_leaves(command, "issues"@, issue_fields(), "closed_at"@, text_cell(text_at(node, "closedAt"@)))
    &&& always_leaves(command, "issues"@, issue_fields(), "created_date_key"@, opt_date_cell(text_at(node, "createdAt"@), context.zone))
}

/// What a node says of an issue reaches the column that it is stored in.
pub proof fn law_an_issue_node_reaches_its_columns(
    command: Command,
    item: IssueData,
    repo_key: Seq<char>,
    context: Context,
    node: Json,
)
    requires
        is_issue(item, node),
        stores_issue(command, item, repo_key, context),
    ensures
        stores_issue_node(command, node, repo_key, context),
{
    reveal(stores_issue);
    reveal(stores_issue_node);
}

// ---------------------------------------------------------------- what is run

/// The command is among those that are run.
pub open spec fn runs(script: Script, command: Command) -> bool {
    exists|k: int| 0 <= k < script.commands.len() && #[trigger] script.commands[k] == command
}

/// The command seeds the calendar.
pub open spec fn seeds_the_calendar(command: Command) -> bool {
    command.sql == date_sql() || command.sql == time_sql()
}

/// The command stores the entity of an actor: that of the deleted account where
/// there is none.
pub open spec fn stores_actor(
    command: Command,
    actor: Option<ActorReference>,
    context: Context,
) -> bool {
    match actor {
        Some(actor) => stores_entity(command, actor, context),
        None => command.params.len() == 0 && command.sql
            == "INSERT OR IGNORE INTO dim_entities (entity_key, entity_type, login, is_human, is_bot, name)
         VALUES ('user:ghost', 'user', 'ghost', 1, 0, 'ghost')"@,
    }
}

/// The command makes sure that the calendar has the day with a key.
pub open spec fn seeds_day(command: Command, key: Cell) -> bool {
    &&& command.sql == ignore_sql("dim_date"@, date_fields())
    &&& holds_in(date_fields(), command.params, "date_key"@, key)
}

/// The command makes sure that the calendar has the hour with a key.
pub open spec fn seeds_hour(command: Command, key: Cell) -> bool {
    &&& command.sql == ignore_sql("dim_time"@, time_fields())
    &&& holds_in(time_fields(), command.params, "time_key"@, key)
}

/// The calendar has the local day and hour of a timestamp before command `at` is
/// run.
pub open spec fn is_dated_before(
    script: Script,
    at: int,
    timestamp: Seq<char>,
    context: Context,
) -> bool {
    &&& exists|j: int|
        0 <= j < at && seeds_day(#[trigger] script.commands[j], date_cell(timestamp, context.zone))
    &&& exists|j: int|
        0 <= j < at && seeds_hour(
            #[trigger] script.commands[j],
            time_cell(timestamp, context.zone),
        )
}

/// The same of an optional timestamp, where there is one.
pub open spec fn is_dated_if_any(
    script: Script,
    at: int,
    timestamp: Option<Seq<char>>,
    context: Context,
) -> bool {
    timestamp matches Some(timestamp) ==> is_dated_before(script, at, timestamp, context)
}

/// The command stores the entity of somebody or seeds the calendar.
pub open spec fn is_background(command: Command, context: Context) -> bool {
    seeds_the_calendar(command) || exists|actor: Option<ActorReference>| #[trigger]
        stores_actor(command, actor, context)
}

/// The entity of an actor is stored before command `at` is run.
pub open spec fn knows_before(
    script: Script,
    at: int,
    actor: Option<ActorReference>,
    context: Context,
) -> bool {
    exists|j: int|
        0 <= j < at && stores_actor(#[trigger] script.commands[j], actor, context)
}

/// Every command does something that is called for.
pub open spec fn only_runs(script: Script, called_for: spec_fn(Command) -> bool) -> bool {
    forall|k: int| 0 <= k < script.commands.len() ==> called_for(#[trigger] script.commands[k])
}

/// The commands of one script stand in another, from an offset on.
pub open spec fn is_placed(whole: Script, part: Script, offset: int) -> bool {
    &&& 0 <= offset
    &&& offset + part.commands.len() <= whole.commands.len()
    &&& forall|k: int|
        0 <= k < part.commands.len() ==> whole.commands[offset + k] == #[trigger] part.commands[k]
}

proof fn lemma_lift(
    whole: Script,
    part: Script,
    offset: int,
    at: int,
    actor: Option<ActorReference>,
    context: Context,
)
    requires
        is_placed(whole, part, offset),
        0 <= at <= part.commands.len(),
        knows_before(part, at, actor, context),
    ensures
        knows_before(whole, offset + at, actor, context),
{
    let j = choose|j: int|
        0 <= j < at && stores_actor(#[trigger] part.commands[j], actor, context);
    assert(whole.commands[offset + j] == part.commands[j]);
}

proof fn lemma_runs(first: Script, second: Script, command: Command)
    requires
        first.refusal is None,
        runs(first, command) || runs(second, command),
    ensures
        runs(chained(first, second), command),
{
    let both = chained(first, second);
    if runs(first, command) {
        let k = choose|k: int|
            0 <= k < first.commands.len() && #[trigger] first.commands[k] == command;
        assert(both.commands[k] == command);
    } else {
        let k = choose|k: int|
            0 <= k < second.commands.len() && #[trigger] second.commands[k] == command;
        assert(both.commands[first.commands.len() + k] == command);
    }
}

proof fn lemma_only_runs(first: Script, second: Script, called_for: spec_fn(Command) -> bool)
    requires
        only_runs(first, called_for),
        only_runs(second, called_for),
    ensures
        only_runs(chained(first, second), called_for),
{
    let both = chained(first, second);
    if first.refusal is None {
        assert forall|k: int| 0 <= k < both.commands.len() implies called_for(
            #[trigger] both.commands[k],
        ) by {
            if k < first.commands.len() {
                assert(both.commands[k] == first.commands[k]);
            } else {
                assert(both.commands[k] == second.commands[k - first.commands.len()]);
            }
        }
    }
}

proof fn lemma_just(command: Command)
    ensures
        runs(just(command), command),
{
    assert(just(command).commands[0] == command);
}

proof fn lemma_actor_script(actor: Option<ActorReference>, context: Context)
    ensures
        actor_script(actor, context).refusal is None,
        actor_script(actor, context).commands.len() == 1,
        stores_actor(actor_script(actor, context).commands[0], actor, context),
        only_runs(actor_script(actor, context), |c: Command| is_background(c, context)),
{
    let script = actor_script(actor, context);
    if let Some(account) = actor {
        law_an_entity_row_holds_its_account(account, context);
    }
    assert(stores_actor(script.commands[0], actor, context));
}

proof fn lemma_stamp_script(timestamp: Seq<char>, context: Context)
    ensures
        is_stamped(timestamp, context) <==> stamp_script(timestamp, context).refusal is None,
        only_runs(stamp_script(timestamp, context), |c: Command| is_background(c, context)),
{
}

/// A timestamp that can be placed has its local day and hour in the calendar once its
/// commands are run, under the keys that rows are filed under.
pub proof fn law_a_timestamp_has_its_rows_in_the_calendar(timestamp: Seq<char>, context: Context)
    requires
        is_stamped(timestamp, context),
    ensures
        is_dated_before(
            stamp_script(timestamp, context),
            stamp_script(timestamp, context).commands.len() as int,
            timestamp,
            context,
        ),
{
    let script = stamp_script(timestamp, context);
    let day = script.commands[0];
    let hour = script.commands[1];
    assert(date_fields()[0].name == "date_key"@);
    assert(day.params[0] == date_cell(timestamp, context.zone));
    assert(seeds_day(day, date_cell(timestamp, context.zone)));
    assert(time_fields()[0].name == "time_key"@);
    assert(hour.params[0] == time_cell(timestamp, context.zone));
    assert(seeds_hour(hour, time_cell(timestamp, context.zone)));
}

proof fn lemma_lift_dates(
    whole: Script,
    part: Script,
    offset: int,
    at: int,
    timestamp: Seq<char>,
    context: Context,
)
    requires
        is_placed(whole, part, offset),
        0 <= at <= part.commands.len(),
        is_dated_before(part, at, timestamp, context),
    ensures
        forall|later: int|
            offset + at <= later ==> #[trigger] is_dated_before(whole, later, timestamp, context),
{
    let date = date_cell(timestamp, context.zone);
    let time = time_cell(timestamp, context.zone);
    let j = choose|j: int| 0 <= j < at && seeds_day(#[trigger] part.commands[j], date);
    let k = choose|k: int| 0 <= k < at && seeds_hour(#[trigger] part.commands[k], time);
    assert(whole.commands[offset + j] == part.commands[j]);
    assert(whole.commands[offset + k] == part.commands[k]);
}

proof fn lemma_wider(
    script: Script,
    narrow: spec_fn(Command) -> bool,
    wide: spec_fn(Command) -> bool,
)
    requires
        only_runs(script, narrow),
        forall|c: Command| #[trigger] narrow(c) ==> wide(c),
    ensures
        only_runs(script, wide),
{
    assert forall|k: int| 0 <= k < script.commands.len() implies wide(
        #[trigger] script.commands[k],
    ) by {
        assert(narrow(script.commands[k]));
    }
}

/// The command stores item `i` of the list.
pub open spec fn is_stored_review(command: Command, items: Seq<ReviewData>, i: int, pr_key: Seq<char>, context: Context) -> bool {
    opt_text(items[i].submitted_at) is Some && stores_review(
        command,
        items[i],
        opt_text(items[i].submitted_at)->Some_0,
        pr_key,
        context,
    )
}

/// The command stores one of the items, or is background to it.
pub open spec fn among_stored_review(items: Seq<ReviewData>, pr_key: Seq<char>, context: Context) -> spec_fn(Command) -> bool {
    |command: Command|
        is_background(command, context) || exists|i: int|
            0 <= i < items.len() && #[trigger] is_stored_review(command, items, i, pr_key, context)
}

/// Item `i` is stored, behind the entity of its author.
pub open spec fn keeps_stored_review(script: Script, items: Seq<ReviewData>, i: int, pr_key: Seq<char>, context: Context) -> bool {
    exists|k: int|
        0 <= k < script.commands.len() && is_stored_review(
            #[trigger] script.commands[k],
            items,
            i, pr_key, context,
        ) && knows_before(script, k, items[i].author, context)
}

proof fn lemma_keeps_stored_review(
    whole: Script,
    part: Script,
    offset: int,
    items: Seq<ReviewData>,
    i: int,
    pr_key: Seq<char>,
    context: Context,
)
    requires
        is_placed(whole, part, offset),
        keeps_stored_review(part, items, i, pr_key, context),
    ensures
        keeps_stored_review(whole, items, i, pr_key, context),
{
    let k = choose|k: int|
        0 <= k < part.commands.len() && is_stored_review(
            #[trigger] part.commands[k],
            items,
            i, pr_key, context,
        ) && knows_before(part, k, items[i].author, context);
    assert(whole.commands[offset + k] == part.commands[k]);
    lemma_lift(whole, part, offset, k, items[i].author, context);
    assert(is_stored_review(whole.commands[offset + k], items, i, pr_key, context));
}

proof fn lemma_stored_review(
    items: Seq<ReviewData>,
    n: int,
    pr_key: Seq<char>,
    context: Context,
)
    requires
        0 <= n <= items.len(),
        forall|i: int|
            0 <= i < items.len() ==> is_stamped_if_any(
                opt_text((#[trigger] items[i]).submitted_at),
                context,
            ),
    ensures
        reviews_script(items, n, pr_key, context).refusal is None,
        forall|i: int|
            0 <= i < n && opt_text(items[i].submitted_at) is Some ==> #[trigger] keeps_stored_review(
                reviews_script(items, n, pr_key, context),
                items,
                i, pr_key, context,
            ),
        only_runs(reviews_script(items, n, pr_key, context), among_stored_review(items, pr_key, context)),
    decreases n,
{
    if n > 0 {
        lemma_stored_review(items, n - 1, pr_key, context);
        let before = reviews_script(items, n - 1, pr_key, context);
        let script = reviews_script(items, n, pr_key, context);
        let item = items[n - 1];
        if opt_text(item.submitted_at) is Some {
            let own = review_script(item, pr_key, context);
            let people = actor_script(item.author, context);
            let dated = stamp_script(opt_text(item.submitted_at)->Some_0, context);
            let last = review_command(item.id@, pr_key, actor_key(item.author, context), item.state@, opt_text(item.body), opt_text(item.submitted_at)->Some_0, stamp_date(opt_text(item.submitted_at)->Some_0, context), stamp_time(opt_text(item.submitted_at)->Some_0, context));
            lemma_actor_script(item.author, context);
            lemma_stamp_script(opt_text(item.submitted_at)->Some_0, context);
            lemma_only_runs(people, dated, |c: Command| is_background(c, context));
            lemma_wider(
                chained(people, dated),
                |c: Command| is_background(c, context),
                among_stored_review(items, pr_key, context),
            );
            lemma_just(last);
            lemma_runs(chained(people, dated), just(last), last);
            law_a_review_row_holds_what_was_fetched(item, opt_text(item.submitted_at)->Some_0, pr_key, context);
            assert(is_stored_review(last, items, n - 1, pr_key, context));
            assert(among_stored_review(items, pr_key, context)(last));
            assert(only_runs(just(last), among_stored_review(items, pr_key, context)));
            lemma_only_runs(chained(people, dated), just(last), among_stored_review(items, pr_key, context));
            lemma_only_runs(before, own, among_stored_review(items, pr_key, context));
            lemma_runs(before, own, last);
        } else {
            assert(only_runs(
                review_script(item, pr_key, context),
                among_stored_review(items, pr_key, context),
            ));
            lemma_only_runs(
                before,
                review_script(item, pr_key, context),
                among_stored_review(items, pr_key, context),
            );
        }
        assert forall|i: int| 0 <= i < n && opt_text(items[i].submitted_at) is Some implies #[trigger] keeps_stored_review(
            script,
            items,
            i, pr_key, context,
        ) by {
            if i < n - 1 {
                assert(is_placed(script, before, 0));
                lemma_keeps_stored_review(script, before, 0, items, i, pr_key, context);
            } else {
                let last = review_command(item.id@, pr_key, actor_key(item.author, context), item.state@, opt_text(item.body), opt_text(item.submitted_at)->Some_0, stamp_date(opt_text(item.submitted_at)->Some_0, context), stamp_time(opt_text(item.submitted_at)->Some_0, context));
                let own = review_script(item, pr_key, context);
                let people = actor_script(item.author, context);
                let dated = stamp_script(opt_text(item.submitted_at)->Some_0, context);
                let k = before.commands.len() + people.commands.len() + dated.commands.len();
                lemma_actor_script(item.author, context);
                assert(people.commands.len() == 1);
                assert(stores_actor(people.commands[0], item.author, context));
                assert(own.commands[0] == people.commands[0]);
                assert(script.commands[before.commands.len() as int] == own.commands[0]);
                assert(own.commands[k - before.commands.len()] == last);
                assert(script.commands[k as int] == last);
                assert(is_stored_review(script.commands[k as int], items, i, pr_key, context));
                assert(knows_before(script, k as int, items[i].author, context));
            }
        }
    }
}

/// The command stores item `i` of the list.
pub open spec fn is_stored_review_comment(command: Command, items: Seq<ReviewCommentData>, i: int, pr_key: Seq<char>, context: Context) -> bool {
    stores_review_comment(command, items[i], pr_key, context)
}

/// The command stores one of the items, or is background to it.
pub open spec fn among_stored_review_comment(items: Seq<ReviewCommentData>, pr_key: Seq<char>, context: Context) -> spec_fn(Command) -> bool {
    |command: Command|
        is_background(command, context) || exists|i: int|
            0 <= i < items.len() && #[trigger] is_stored_review_comment(command, items, i, pr_key, context)
}

/// Item `i` is stored, behind the entity of its author.
pub open spec fn keeps_stored_review_comment(script: Script, items: Seq<ReviewCommentData>, i: int, pr_key: Seq<char>, context: Context) -> bool {
    exists|k: int|
        0 <= k < script.commands.len() && is_stored_review_comment(
            #[trigger] script.commands[k],
            items,
            i, pr_key, context,
        ) && knows_before(script, k, items[i].author, context)
}

proof fn lemma_keeps_stored_review_comment(
    whole: Script,
    part: Script,
    offset: int,
    items: Seq<ReviewCommentData>,
    i: int,
    pr_key: Seq<char>,
    context: Context,
)
    requires
        is_placed(whole, part, offset),
        keeps_stored_review_comment(part, items, i, pr_key, context),
    ensures
        keeps_stored_review_comment(whole, items, i, pr_key, context),
{
    let k = choose|k: int|
        0 <= k < part.commands.len() && is_stored_review_comment(
            #[trigger] part.commands[k],
            items,
            i, pr_key, context,
        ) && knows_before(part, k, items[i].author, context);
    assert(whole.commands[offset + k] == part.commands[k]);
    lemma_lift(whole, part, offset, k, items[i].author, context);
    assert(is_stored_review_comment(whole.commands[offset + k], items, i, pr_key, context));
}

proof fn lemma_stored_review_comment(
    items: Seq<ReviewCommentData>,
    n: int,
    pr_key: Seq<char>,
    context: Context,
)
    requires
        0 <= n <= items.len(),
        forall|i: int|
            0 <= i < items.len() ==> is_stamped((#[trigger] items[i]).created_at@, context),
    ensures
        review_comments_script(items, n, pr_key, context).refusal is None,
        forall|i: int|
            0 <= i < n ==> #[trigger] keeps_stored_review_comment(
                review_comments_script(items, n, pr_key, context),
                items,
                i, pr_key, context,
            ),
        only_runs(review_comments_script(items, n, pr_key, context), among_stored_review_comment(items, pr_key, context)),
    decreases n,
{
    if n > 0 {
        lemma_stored_review_comment(items, n - 1, pr_key, context);
        let before = review_comments_script(items, n - 1, pr_key, context);
        let script = review_comments_script(items, n, pr_key, context);
        let item = items[n - 1];
        let own = review_comment_script(item, pr_key, context);
        let people = actor_script(item.author, context);
        let dated = stamp_script(item.created_at@, context);
        let last = review_comment_command(item.id@, pr_key, actor_key(item.author, context), opt_text(item.in_reply_to), opt_text(item.path), item.line, opt_text(item.body), item.created_at@, stamp_date(item.created_at@, context), stamp_time(item.created_at@, context));
        lemma_actor_script(item.author, context);
        lemma_stamp_script(item.created_at@, context);
        lemma_only_runs(people, dated, |c: Command| is_background(c, context));
        lemma_wider(
            chained(people, dated),
            |c: Command| is_background(c, context),
            among_stored_review_comment(items, pr_key, context),
        );
        lemma_just(last);
        lemma_runs(chained(people, dated), just(last), last);
        law_a_review_comment_row_holds_what_was_fetched(item, pr_key, context);
        assert(is_stored_review_comment(last, items, n - 1, pr_key, context));
        assert(among_stored_review_comment(items, pr_key, context)(last));
        assert(only_runs(just(last), among_stored_review_comment(items, pr_key, context)));
        lemma_only_runs(chained(people, dated), just(last), among_stored_review_comment(items, pr_key, context));
        lemma_only_runs(before, own, among_stored_review_comment(items, pr_key, context));
        lemma_runs(before, own, last);
        assert forall|i: int| 0 <= i < n implies #[trigger] keeps_stored_review_comment(
            script,
            items,
            i, pr_key, context,
        ) by {
            if i < n - 1 {
                assert(is_placed(script, before, 0));
                lemma_keeps_stored_review_comment(script, before, 0, items, i, pr_key, context);
            } else {
                let last = review_comment_command(item.id@, pr_key, actor_key(item.author, context), opt_text(item.in_reply_to), opt_text(item.path), item.line, opt_text(item.body), item.created_at@, stamp_date(item.created_at@, context), stamp_time(item.created_at@, context));
                let own = review_comment_script(item, pr_key, context);
                let people = actor_script(item.author, context);
                let dated = stamp_script(item.created_at@, context);
                let k = before.commands.len() + people.commands.len() + dated.commands.len();
                lemma_actor_script(item.author, context);
                assert(people.commands.len() == 1);
                assert(stores_actor(people.commands[0], item.author, context));
                assert(own.commands[0] == people.commands[0]);
                assert(script.commands[before.commands.len() as int] == own.commands[0]);
                assert(own.commands[k - before.commands.len()] == last);
                assert(script.commands[k as int] == last);
                assert(is_stored_review_comment(script.commands[k as int], items, i, pr_key, context));
                assert(knows_before(script, k as int, items[i].author, context));
            }
        }
    }
}

/// The command stores item `i` of the list.
pub open spec fn is_stored_conversation(command: Command, items: Seq<ConversationCommentData>, i: int, parent: Seq<char>, context: Context) -> bool {
    stores_comment(
        command,
        items[i].id@,
        "pull_request"@,
        parent,
        items[i].author,
        opt_text(items[i].body),
        items[i].created_at@,
        context,
    )
}

/// The command stores one of the items, or is background to it.
pub open spec fn among_stored_conversation(items: Seq<ConversationCommentData>, parent: Seq<char>, context: Context) -> spec_fn(Command) -> bool {
    |command: Command|
        is_background(command, context) || exists|i: int|
            0 <= i < items.len() && #[trigger] is_stored_conversation(command, items, i, parent, context)
}

/// Item `i` is stored, behind the entity of its author.
pub open spec fn keeps_stored_conversation(script: Script, items: Seq<ConversationCommentData>, i: int, parent: Seq<char>, context: Context) -> bool {
    exists|k: int|
        0 <= k < script.commands.len() && is_stored_conversation(
            #[trigger] script.commands[k],
            items,
            i, parent, context,
        ) && knows_before(script, k, items[i].author, context)
}

proof fn lemma_keeps_stored_conversation(
    whole: Script,
    part: Script,
    offset: int,
    items: Seq<ConversationCommentData>,
    i: int,
    parent: Seq<char>,
    context: Context,
)
    requires
        is_placed(whole, part, offset),
        keeps_stored_conversation(part, items, i, parent, context),
    ensures
        keeps_stored_conversation(whole, items, i, parent, context),
{
    let k = choose|k: int|
        0 <= k < part.commands.len() && is_stored_conversation(
            #[trigger] part.commands[k],
            items,
            i, parent, context,
        ) && knows_before(part, k, items[i].author, context);
    assert(whole.commands[offset + k] == part.commands[k]);
    lemma_lift(whole, part, offset, k, items[i].author, context);
    assert(is_stored_conversation(whole.commands[offset + k], items, i, parent, context));
}

proof fn lemma_stored_conversation(
    items: Seq<ConversationCommentData>,
    n: int,
    parent: Seq<char>,
    context: Context,
)
    requires
        0 <= n <= items.len(),
        forall|i: int|
            0 <= i < items.len() ==> is_stamped((#[trigger] items[i]).created_at@, context),
    ensures
        conversation_script(items, n, parent, context).refusal is None,
        forall|i: int|
            0 <= i < n ==> #[trigger] keeps_stored_conversation(
                conversation_script(items, n, parent, context),
                items,
                i, parent, context,
            ),
        only_runs(conversation_script(items, n, parent, context), among_stored_conversation(items, parent, context)),
    decreases n,
{
    if n > 0 {
        lemma_stored_conversation(items, n - 1, parent, context);
        let before = conversation_script(items, n - 1, parent, context);
        let script = conversation_script(items, n, parent, context);
        let item = items[n - 1];
        let own = comment_script(item.id@, "pull_request"@, parent, item.author, opt_text(item.body), item.created_at@, context);
        let people = actor_script(item.author, context);
        let dated = stamp_script(item.created_at@, context);
        let last = issue_comment_command(item.id@, "pull_request"@, parent, actor_key(item.author, context), None, opt_text(item.body), item.created_at@, stamp_date(item.created_at@, context), stamp_time(item.created_at@, context));
        lemma_actor_script(item.author, context);
        lemma_stamp_script(item.created_at@, context);
        lemma_only_runs(people, dated, |c: Command| is_background(c, context));
        lemma_wider(
            chained(people, dated),
            |c: Command| is_background(c, context),
            among_stored_conversation(items, parent, context),
        );
        lemma_just(last);
        lemma_runs(chained(people, dated), just(last), last);
        law_a_comment_row_holds_what_was_fetched(item.id@, "pull_request"@, parent, item.author, opt_text(item.body), item.created_at@, context);
        assert(is_stored_conversation(last, items, n - 1, parent, context));
        assert(among_stored_conversation(items, parent, context)(last));
        assert(only_runs(just(last), among_stored_conversation(items, parent, context)));
        lemma_only_runs(chained(people, dated), just(last), among_stored_conversation(items, parent, context));
        lemma_only_runs(before, own, among_stored_conversation(items, parent, context));
        lemma_runs(before, own, last);
        assert forall|i: int| 0 <= i < n implies #[trigger] keeps_stored_conversation(
            script,
            items,
            i, parent, context,
        ) by {
            if i < n - 1 {
                assert(is_placed(script, before, 0));
                lemma_keeps_stored_conversation(script, before, 0, items, i, parent, context);
            } else {
                let last = issue_comment_command(item.id@, "pull_request"@, parent, actor_key(item.author, context), None, opt_text(item.body), item.created_at@, stamp_date(item.created_at@, context), stamp_time(item.created_at@, context));
                let own = comment_script(item.id@, "pull_request"@, parent, item.author, opt_text(item.body), item.created_at@, context);
                let people = actor_script(item.author, context);
                let dated = stamp_script(item.created_at@, context);
                let k = before.commands.len() + people.commands.len() + dated.commands.len();
                lemma_actor_script(item.author, context);
                assert(people.commands.len() == 1);
                assert(stores_actor(people.commands[0], item.author, context));
                assert(own.commands[0] == people.commands[0]);
                assert(script.commands[before.commands.len() as int] == own.commands[0]);
                assert(own.commands[k - before.commands.len()] == last);
                assert(script.commands[k as int] == last);
                assert(is_stored_conversation(script.commands[k as int], items, i, parent, context));
                assert(knows_before(script, k as int, items[i].author, context));
            }
        }
    }
}

/// The command stores item `i` of the list.
pub open spec fn is_stored_issue_comment(command: Command, items: Seq<IssueCommentData>, i: int, parent: Seq<char>, context: Context) -> bool {
    stores_comment(
        command,
        items[i].id@,
        "issue"@,
        parent,
        items[i].author,
        opt_text(items[i].body),
        items[i].created_at@,
        context,
    )
}

/// The command stores one of the items, or is background to it.
pub open spec fn among_stored_issue_comment(items: Seq<IssueCommentData>, parent: Seq<char>, context: Context) -> spec_fn(Command) -> bool {
    |command: Command|
        is_background(command, context) || exists|i: int|
            0 <= i < items.len() && #[trigger] is_stored_issue_comment(command, items, i, parent, context)
}

/// Item `i` is stored, behind the entity of its author.
pub open spec fn keeps_stored_issue_comment(script: Script, items: Seq<IssueCommentData>, i: int, parent: Seq<char>, context: Context) -> bool {
    exists|k: int|
        0 <= k < script.commands.len() && is_stored_issue_comment(
            #[trigger] script.commands[k],
            items,
            i, parent, context,
        ) && knows_before(script, k, items[i].author, context)
}

proof fn lemma_keeps_stored_issue_comment(
    whole: Script,
    part: Script,
    offset: int,
    items: Seq<IssueCommentData>,
    i: int,
    parent: Seq<char>,
    context: Context,
)
    requires
        is_placed(whole, part, offset),
        keeps_stored_issue_comment(part, items, i, parent, context),
    ensures
        keeps_stored_issue_comment(whole, items, i, parent, context),
{
    let k = choose|k: int|
        0 <= k < part.commands.len() && is_stored_issue_comment(
            #[trigger] part.commands[k],
            items,
            i, parent, context,
        ) && knows_before(part, k, items[i].author, context);
    assert(whole.commands[offset + k] == part.commands[k]);
    lemma_lift(whole, part, offset, k, items[i].author, context);
    assert(is_stored_issue_comment(whole.commands[offset + k], items, i, parent, context));
}

proof fn lemma_stored_issue_comment(
    items: Seq<IssueCommentData>,
    n: int,
    parent: Seq<char>,
    context: Context,
)
    requires
        0 <= n <= items.len(),
        forall|i: int|
            0 <= i < items.len() ==> is_stamped((#[trigger] items[i]).created_at@, context),
    ensures
        issue_comments_script(items, n, parent, context).refusal is None,
        forall|i: int|
            0 <= i < n ==> #[trigger] keeps_stored_issue_comment(
                issue_comments_script(items, n, parent, context),
                items,
                i, parent, context,
            ),
        only_runs(issue_comments_script(items, n, parent, context), among_stored_issue_comment(items, parent, context)),
    decreases n,
{
    if n > 0 {
        lemma_stored_issue_comment(items, n - 1, parent, context);
        let before = issue_comments_script(items, n - 1, parent, context);
        let script = issue_comments_script(items, n, parent, context);
        let item = items[n - 1];
        let own = comment_script(item.id@, "issue"@, parent, item.author, opt_text(item.body), item.created_at@, context);
        let people = actor_script(item.author, context);
        let dated = stamp_script(item.created_at@, context);
        let last = issue_comment_command(item.id@, "issue"@, parent, actor_key(item.author, context), None, opt_text(item.body), item.created_at@, stamp_date(item.created_at@, context), stamp_time(item.created_at@, context));
        lemma_actor_script(item.author, context);
        lemma_stamp_script(item.created_at@, context);
        lemma_only_runs(people, dated, |c: Command| is_background(c, context));
        lemma_wider(
            chained(people, dated),
            |c: Command| is_background(c, context),
            among_stored_issue_comment(items, parent, context),
        );
        lemma_just(last);
        lemma_runs(chained(people, dated), just(last), last);
        law_a_comment_row_holds_what_was_fetched(item.id@, "issue"@, parent, item.author, opt_text(item.body), item.created_at@, context);
        assert(is_stored_issue_comment(last, items, n - 1, parent, context));
        assert(among_stored_issue_comment(items, parent, context)(last));
        assert(only_runs(just(last), among_stored_issue_comment(items, parent, context)));
        lemma_only_runs(chained(people, dated), just(last), among_stored_issue_comment(items, parent, context));
        lemma_only_runs(before, own, among_stored_issue_comment(items, parent, context));
        lemma_runs(before, own, last);
        assert forall|i: int| 0 <= i < n implies #[trigger] keeps_stored_issue_comment(
            script,
            items,
            i, parent, context,
        ) by {
            if i < n - 1 {
                assert(is_placed(script, before, 0));
                lemma_keeps_stored_issue_comment(script, before, 0, items, i, parent, context);
            } else {
                let last = issue_comment_command(item.id@, "issue"@, parent, actor_key(item.author, context), None, opt_text(item.body), item.created_at@, stamp_date(item.created_at@, context), stamp_time(item.created_at@, context));
                let own = comment_script(item.id@, "issue"@, parent, item.author, opt_text(item.body), item.created_at@, context);
                let people = actor_script(item.author, context);
                let dated = stamp_script(item.created_at@, context);
                let k = before.commands.len() + people.commands.len() + dated.commands.len();
                lemma_actor_script(item.author, context);
                assert(people.commands.len() == 1);
                assert(stores_actor(people.commands[0], item.author, context));
                assert(own.commands[0] == people.commands[0]);
                assert(script.commands[before.commands.len() as int] == own.commands[0]);
                assert(own.commands[k - before.commands.len()] == last);
                assert(script.commands[k as int] == last);
                assert(is_stored_issue_comment(script.commands[k as int], items, i, parent, context));
                assert(knows_before(script, k as int, items[i].author, context));
            }
        }
    }
}

/// The command stores item `i` of the list.
pub open spec fn is_stored_check(command: Command, items: Seq<CheckRunData>, i: int, pr_key: Seq<char>, head_sha: Seq<char>) -> bool {
    stores_check_run(command, items[i], pr_key, head_sha)
}

/// The command stores one of the items, or is background to it.
pub open spec fn among_stored_check(items: Seq<CheckRunData>, pr_key: Seq<char>, head_sha: Seq<char>) -> spec_fn(Command) -> bool {
    |command: Command|
        exists|i: int|
            0 <= i < items.len() && #[trigger] is_stored_check(command, items, i, pr_key, head_sha)
}

/// Item `i` is stored.
pub open spec fn keeps_stored_check(script: Script, items: Seq<CheckRunData>, i: int, pr_key: Seq<char>, head_sha: Seq<char>) -> bool {
    exists|k: int|
        0 <= k < script.commands.len() && is_stored_check(
            #[trigger] script.commands[k],
            items,
            i, pr_key, head_sha,
        )
}

proof fn lemma_keeps_stored_check(
    whole: Script,
    part: Script,
    offset: int,
    items: Seq<CheckRunData>,
    i: int,
    pr_key: Seq<char>,
    head_sha: Seq<char>,
)
    requires
        is_placed(whole, part, offset),
        keeps_stored_check(part, items, i, pr_key, head_sha),
    ensures
        keeps_stored_check(whole, items, i, pr_key, head_sha),
{
    let k = choose|k: int|
        0 <= k < part.commands.len() && is_stored_check(
            #[trigger] part.commands[k],
            items,
            i, pr_key, head_sha,
        );
    assert(whole.commands[offset + k] == part.commands[k]);
    assert(is_stored_check(whole.commands[offset + k], items, i, pr_key, head_sha));
}

proof fn lemma_stored_check(
    items: Seq<CheckRunData>,
    n: int,
    pr_key: Seq<char>,
    head_sha: Seq<char>,
)
    requires
        0 <= n <= items.len(),
    ensures
        checks_script(items, n, pr_key, head_sha).refusal is None,
        forall|i: int|
            0 <= i < n ==> #[trigger] keeps_stored_check(
                checks_script(items, n, pr_key, head_sha),
                items,
                i, pr_key, head_sha,
            ),
        only_runs(checks_script(items, n, pr_key, head_sha), among_stored_check(items, pr_key, head_sha)),
    decreases n,
{
    if n > 0 {
        lemma_stored_check(items, n - 1, pr_key, head_sha);
        let before = checks_script(items, n - 1, pr_key, head_sha);
        let script = checks_script(items, n, pr_key, head_sha);
        let item = items[n - 1];
        let own = just(check_run_command(item.id@, pr_key, head_sha, item.name@, item.status@, opt_text(item.conclusion), opt_text(item.started_at), opt_text(item.completed_at)));
        let last = check_run_command(item.id@, pr_key, head_sha, item.name@, item.status@, opt_text(item.conclusion), opt_text(item.started_at), opt_text(item.completed_at));
        lemma_just(last);
        law_a_check_run_row_holds_what_was_fetched(item, pr_key, head_sha);
        assert(is_stored_check(last, items, n - 1, pr_key, head_sha));
        assert(among_stored_check(items, pr_key, head_sha)(last));
        assert(only_runs(just(last), among_stored_check(items, pr_key, head_sha)));
        lemma_only_runs(before, own, among_stored_check(items, pr_key, head_sha));
        lemma_runs(before, own, last);
        assert forall|i: int| 0 <= i < n implies #[trigger] keeps_stored_check(
            script,
            items,
            i, pr_key, head_sha,
        ) by {
            if i < n - 1 {
                assert(is_placed(script, before, 0));
                lemma_keeps_stored_check(script, before, 0, items, i, pr_key, head_sha);
            } else {
                let last = check_run_command(item.id@, pr_key, head_sha, item.name@, item.status@, opt_text(item.conclusion), opt_text(item.started_at), opt_text(item.completed_at));
                let k = choose|k: int|
                    0 <= k < script.commands.len() && #[trigger] script.commands[k] == last;
                assert(is_stored_check(script.commands[k], items, i, pr_key, head_sha));
            }
        }
    }
}

/// The command stores item `i` of the list.
pub open spec fn is_stored_file(command: Command, items: Seq<FileDiffData>, i: int, pr_key: Seq<char>, repo_key: Seq<char>) -> bool {
    stores_file(command, items[i], pr_key, repo_key)
}

/// The command stores one of the items, or is background to it.
pub open spec fn among_stored_file(items: Seq<FileDiffData>, pr_key: Seq<char>, repo_key: Seq<char>) -> spec_fn(Command) -> bool {
    |command: Command|
        exists|i: int|
            0 <= i < items.len() && #[trigger] is_stored_file(command, items, i, pr_key, repo_key)
}

/// Item `i` is stored.
pub open spec fn keeps_stored_file(script: Script, items: Seq<FileDiffData>, i: int, pr_key: Seq<char>, repo_key: Seq<char>) -> bool {
    exists|k: int|
        0 <= k < script.commands.len() && is_stored_file(
            #[trigger] script.commands[k],
            items,
            i, pr_key, repo_key,
        )
}

proof fn lemma_keeps_stored_file(
    whole: Script,
    part: Script,
    offset: int,
    items: Seq<FileDiffData>,
    i: int,
    pr_key: Seq<char>,
    repo_key: Seq<char>,
)
    requires
        is_placed(whole, part, offset),
        keeps_stored_file(part, items, i, pr_key, repo_key),
    ensures
        keeps_stored_file(whole, items, i, pr_key, repo_key),
{
    let k = choose|k: int|
        0 <= k < part.commands.len() && is_stored_file(
            #[trigger] part.commands[k],
            items,
            i, pr_key, repo_key,
        );
    assert(whole.commands[offset + k] == part.commands[k]);
    assert(is_stored_file(whole.commands[offset + k], items, i, pr_key, repo_key));
}

proof fn lemma_stored_file(
    items: Seq<FileDiffData>,
    n: int,
    pr_key: Seq<char>,
    repo_key: Seq<char>,
)
    requires
        0 <= n <= items.len(),
    ensures
        files_script(items, n, pr_key, repo_key).refusal is None,
        forall|i: int|
            0 <= i < n ==> #[trigger] keeps_stored_file(
                files_script(items, n, pr_key, repo_key),
                items,
                i, pr_key, repo_key,
            ),
        only_runs(files_script(items, n, pr_key, repo_key), among_stored_file(items, pr_key, repo_key)),
    decreases n,
{
    if n > 0 {
        lemma_stored_file(items, n - 1, pr_key, repo_key);
        let before = files_script(items, n - 1, pr_key, repo_key);
        let script = files_script(items, n, pr_key, repo_key);
        let item = items[n - 1];
        let own = just(file_diff_command(pr_key, repo_key, item.path@, None, item.change_type@, None, item.additions as int, item.deletions as int));
        let last = file_diff_command(pr_key, repo_key, item.path@, None, item.change_type@, None, item.additions as int, item.deletions as int);
        lemma_just(last);
        law_a_file_row_holds_what_was_fetched(item, pr_key, repo_key);
        assert(is_stored_file(last, items, n - 1, pr_key, repo_key));
        assert(among_stored_file(items, pr_key, repo_key)(last));
        assert(only_runs(just(last), among_stored_file(items, pr_key, repo_key)));
        lemma_only_runs(before, own, among_stored_file(items, pr_key, repo_key));
        lemma_runs(before, own, last);
        assert forall|i: int| 0 <= i < n implies #[trigger] keeps_stored_file(
            script,
            items,
            i, pr_key, repo_key,
        ) by {
            if i < n - 1 {
                assert(is_placed(script, before, 0));
                lemma_keeps_stored_file(script, before, 0, items, i, pr_key, repo_key);
            } else {
                let last = file_diff_command(pr_key, repo_key, item.path@, None, item.change_type@, None, item.additions as int, item.deletions as int);
                let k = choose|k: int|
                    0 <= k < script.commands.len() && #[trigger] script.commands[k] == last;
                assert(is_stored_file(script.commands[k], items, i, pr_key, repo_key));
            }
        }
    }
}

/// The command stores item `i` of the list.
pub open spec fn is_stored_label(command: Command, items: Seq<LabelData>, i: int, repo_key: Seq<char>) -> bool {
    stores_label(command, items[i], repo_key)
}

/// The command stores one of the items, or is background to it.
pub open spec fn among_stored_label(items: Seq<LabelData>, repo_key: Seq<char>) -> spec_fn(Command) -> bool {
    |command: Command|
        exists|i: int|
            0 <= i < items.len() && #[trigger] is_stored_label(command, items, i, repo_key)
}

/// Item `i` is stored.
pub open spec fn keeps_stored_label(script: Script, items: Seq<LabelData>, i: int, repo_key: Seq<char>) -> bool {
    exists|k: int|
        0 <= k < script.commands.len() && is_stored_label(
            #[trigger] script.commands[k],
            items,
            i, repo_key,
        )
}

proof fn lemma_keeps_stored_label(
    whole: Script,
    part: Script,
    offset: int,
    items: Seq<LabelData>,
    i: int,
    repo_key: Seq<char>,
)
    requires
        is_placed(whole, part, offset),
        keeps_stored_label(part, items, i, repo_key),
    ensures
        keeps_stored_label(whole, items, i, repo_key),
{
    let k = choose|k: int|
        0 <= k < part.commands.len() && is_stored_label(
            #[trigger] part.commands[k],
            items,
            i, repo_key,
        );
    assert(whole.commands[offset + k] == part.commands[k]);
    assert(is_stored_label(whole.commands[offset + k], items, i, repo_key));
}

proof fn lemma_stored_label(
    items: Seq<LabelData>,
    n: int,
    repo_key: Seq<char>,
)
    requires
        0 <= n <= items.len(),
    ensures
        labels_script(items, n, repo_key).refusal is None,
        forall|i: int|
            0 <= i < n ==> #[trigger] keeps_stored_label(
                labels_script(items, n, repo_key),
                items,
                i, repo_key,
            ),
        only_runs(labels_script(items, n, repo_key), among_stored_label(items, repo_key)),
    decreases n,
{
    if n > 0 {
        lemma_stored_label(items, n - 1, repo_key);
        let before = labels_script(items, n - 1, repo_key);
        let script = labels_script(items, n, repo_key);
        let item = items[n - 1];
        let own = just(label_command(repo_key, item));
        let last = label_command(repo_key, item);
        lemma_just(last);
        law_a_label_row_holds_what_was_fetched(item, repo_key);
        assert(is_stored_label(last, items, n - 1, repo_key));
        assert(among_stored_label(items, repo_key)(last));
        assert(only_runs(just(last), among_stored_label(items, repo_key)));
        lemma_only_runs(before, own, among_stored_label(items, repo_key));
        lemma_runs(before, own, last);
        assert forall|i: int| 0 <= i < n implies #[trigger] keeps_stored_label(
            script,
            items,
            i, repo_key,
        ) by {
            if i < n - 1 {
                assert(is_placed(script, before, 0));
                lemma_keeps_stored_label(script, before, 0, items, i, repo_key);
            } else {
                let last = label_command(repo_key, item);
                let k = choose|k: int|
                    0 <= k < script.commands.len() && #[trigger] script.commands[k] == last;
                assert(is_stored_label(script.commands[k], items, i, repo_key));
            }
        }
    }
}

/// Everything that a pull request holds is stored: its row, its submitted
/// reviews, its comments, the check runs of its head commit and its files. Whoever
/// a row names has been stored before it.
pub open spec fn stores_all_of_a_pull_request(
    script: Script,
    item: PullRequestData,
    repo_key: Seq<char>,
    pr_key: Seq<char>,
    context: Context,
) -> bool {
    &&& exists|k: int|
        {
            &&& 0 <= k < script.commands.len()
            &&& stores_pull_request(
                #[trigger] script.commands[k],
                item,
                repo_key,
                pr_key,
                context,
            )
            &&& knows_before(script, k, item.author, context)
            &&& item.merged_by is Some ==> knows_before(script, k, item.merged_by, context)
            &&& is_dated_before(script, k, item.created_at@, context)
            &&& is_dated_if_any(script, k, opt_text(item.updated_at), context)
            &&& is_dated_if_any(script, k, opt_text(item.merged_at), context)
        }
    &&& forall|i: int|
        0 <= i < item.reviews@.len() && opt_text(item.reviews@[i].submitted_at) is Some ==> #[trigger] keeps_stored_review(script, item.reviews@, i, pr_key, context)
    &&& forall|i: int|
        0 <= i < item.review_comments@.len() ==> #[trigger] keeps_stored_review_comment(script, item.review_comments@, i, pr_key, context)
    &&& forall|i: int|
        0 <= i < item.conversation_comments@.len() ==> #[trigger] keeps_stored_conversation(script, item.conversation_comments@, i, pr_key, context)
    &&& opt_text(item.head_sha) matches Some(head_sha) ==> forall|i: int|
        0 <= i < item.check_runs@.len() ==> #[trigger] keeps_stored_check(script, item.check_runs@, i, pr_key, head_sha)
    &&& forall|i: int|
        0 <= i < item.files@.len() ==> #[trigger] keeps_stored_file(script, item.files@, i, pr_key, repo_key)
}

/// What may be run to store a pull request: nothing but what it holds.
pub open spec fn called_for_by_a_pull_request(
    item: PullRequestData,
    repo_key: Seq<char>,
    pr_key: Seq<char>,
    context: Context,
) -> spec_fn(Command) -> bool {
    |command: Command|
        {
            ||| is_background(command, context)
            ||| stores_pull_request(command, item, repo_key, pr_key, context)
            ||| among_stored_review(item.reviews@, pr_key, context)(command)
            ||| among_stored_review_comment(item.review_comments@, pr_key, context)(command)
            ||| among_stored_conversation(item.conversation_comments@, pr_key, context)(command)
            ||| opt_text(item.head_sha) is Some && among_stored_check(
                item.check_runs@,
                pr_key,
                opt_text(item.head_sha)->Some_0,
            )(command)
            ||| among_stored_file(item.files@, pr_key, repo_key)(command)
        }
}

proof fn lemma_preface(item: PullRequestData, context: Context)
    requires
        all_stamped(item, context),
    ensures
        preface_script(item, context).refusal is None,
        knows_before(
            preface_script(item, context),
            preface_script(item, context).commands.len() as int,
            item.author,
            context,
        ),
        item.merged_by is Some ==> knows_before(
            preface_script(item, context),
            preface_script(item, context).commands.len() as int,
            item.merged_by,
            context,
        ),
        is_dated_before(
            preface_script(item, context),
            preface_script(item, context).commands.len() as int,
            item.created_at@,
            context,
        ),
        is_dated_if_any(
            preface_script(item, context),
            preface_script(item, context).commands.len() as int,
            opt_text(item.updated_at),
            context,
        ),
        is_dated_if_any(
            preface_script(item, context),
            preface_script(item, context).commands.len() as int,
            opt_text(item.merged_at),
            context,
        ),
        only_runs(preface_script(item, context), |c: Command| is_background(c, context)),
{
    let background = |c: Command| is_background(c, context);
    let author = actor_script(item.author, context);
    let merger = merger_script(item, context);
    let created = stamp_script(item.created_at@, context);
    let updated = opt_stamp_script(opt_text(item.updated_at), context);
    let merged = opt_stamp_script(opt_text(item.merged_at), context);
    let whole = preface_script(item, context);
    lemma_actor_script(item.author, context);
    lemma_actor_script(item.merged_by, context);
    lemma_stamp_script(item.created_at@, context);
    if let Some(at) = opt_text(item.updated_at) {
        lemma_stamp_script(at, context);
    }
    if let Some(at) = opt_text(item.merged_at) {
        lemma_stamp_script(at, context);
    }
    assert(only_runs(merger, background));
    assert(only_runs(updated, background));
    assert(only_runs(merged, background));
    lemma_only_runs(author, merger, background);
    lemma_only_runs(chained(author, merger), created, background);
    lemma_only_runs(chained(chained(author, merger), created), updated, background);
    lemma_only_runs(
        chained(chained(chained(author, merger), created), updated),
        merged,
        background,
    );
    assert(whole.commands =~= author.commands + merger.commands + created.commands
        + updated.commands + merged.commands);
    let end = whole.commands.len() as int;
    let after_people: int = author.commands.len() as int + merger.commands.len();
    let after_created: int = after_people + created.commands.len();
    let after_updated: int = after_created + updated.commands.len();
    law_a_timestamp_has_its_rows_in_the_calendar(item.created_at@, context);
    assert(is_placed(whole, created, after_people));
    lemma_lift_dates(
        whole,
        created,
        after_people,
        created.commands.len() as int,
        item.created_at@,
        context,
    );
    assert(is_dated_before(whole, end, item.created_at@, context));
    if let Some(at) = opt_text(item.updated_at) {
        law_a_timestamp_has_its_rows_in_the_calendar(at, context);
        assert(is_placed(whole, updated, after_created));
        lemma_lift_dates(
            whole,
            updated,
            after_created,
            updated.commands.len() as int,
            at,
            context,
        );
        assert(is_dated_before(whole, end, at, context));
    }
    if let Some(at) = opt_text(item.merged_at) {
        law_a_timestamp_has_its_rows_in_the_calendar(at, context);
        assert(is_placed(whole, merged, after_updated));
        lemma_lift_dates(
            whole,
            merged,
            after_updated,
            merged.commands.len() as int,
            at,
            context,
        );
        assert(is_dated_before(whole, end, at, context));
    }
    assert(whole.commands[0] == author.commands[0]);
    assert(stores_actor(whole.commands[0], item.author, context));
    if item.merged_by is Some {
        assert(whole.commands[1] == merger.commands[0]);
        assert(stores_actor(whole.commands[1], item.merged_by, context));
    }
}

proof fn lemma_pull_request_stored(
    item: PullRequestData,
    repo_key: Seq<char>,
    pr_key: Seq<char>,
    context: Context,
)
    requires
        all_stamped(item, context),
        item.conversation_comments@.len() + item.review_comments@.len() <= i64::MAX,
        item.reviews@.len() <= i64::MAX,
    ensures
        stores_all_of_a_pull_request(
            pull_request_script(item, repo_key, pr_key, context),
            item,
            repo_key,
            pr_key,
            context,
        ),
{
    let script = pull_request_script(item, repo_key, pr_key, context);
    let preface = preface_script(item, context);
    let row = row_command(item, repo_key, pr_key, context);
    let reviews = reviews_script(item.reviews@, item.reviews@.len() as int, pr_key, context);
    let threads = review_comments_script(
        item.review_comments@,
        item.review_comments@.len() as int,
        pr_key,
        context,
    );
    let talk = conversation_script(
        item.conversation_comments@,
        item.conversation_comments@.len() as int,
        pr_key,
        context,
    );
    let checks = head_checks_script(item, pr_key);
    let files = files_script(item.files@, item.files@.len() as int, pr_key, repo_key);
    lemma_preface(item, context);
    law_a_pull_request_row_holds_what_was_fetched(item, repo_key, pr_key, context);
    lemma_stored_review(item.reviews@, item.reviews@.len() as int, pr_key, context);
    lemma_stored_review_comment(
        item.review_comments@,
        item.review_comments@.len() as int,
        pr_key,
        context,
    );
    lemma_stored_conversation(
        item.conversation_comments@,
        item.conversation_comments@.len() as int,
        pr_key,
        context,
    );
    if let Some(head_sha) = opt_text(item.head_sha) {
        lemma_stored_check(
            item.check_runs@,
            item.check_runs@.len() as int,
            pr_key,
            head_sha,
        );
    }
    lemma_stored_file(item.files@, item.files@.len() as int, pr_key, repo_key);
    let after_row: int = preface.commands.len() as int + 1;
    let after_reviews: int = after_row + reviews.commands.len();
    let after_threads: int = after_reviews + threads.commands.len();
    let after_talk: int = after_threads + talk.commands.len();
    let after_checks: int = after_talk + checks.commands.len();
    assert(script.commands =~= preface.commands + seq![row] + reviews.commands + threads.commands
        + talk.commands + checks.commands + files.commands);
    assert(is_placed(script, preface, 0));
    assert(is_placed(script, reviews, after_row));
    assert(is_placed(script, threads, after_reviews));
    assert(is_placed(script, talk, after_threads));
    assert(is_placed(script, checks, after_talk));
    assert(is_placed(script, files, after_checks));
    let at = preface.commands.len() as int;
    assert(script.commands[at] == row);
    lemma_lift(script, preface, 0, at, item.author, context);
    if item.merged_by is Some {
        lemma_lift(script, preface, 0, at, item.merged_by, context);
    }
    lemma_lift_dates(script, preface, 0, at, item.created_at@, context);
    assert(is_dated_before(script, at, item.created_at@, context));
    if let Some(updated) = opt_text(item.updated_at) {
        lemma_lift_dates(script, preface, 0, at, updated, context);
        assert(is_dated_before(script, at, updated, context));
    }
    if let Some(merged) = opt_text(item.merged_at) {
        lemma_lift_dates(script, preface, 0, at, merged, context);
        assert(is_dated_before(script, at, merged, context));
    }
    assert forall|i: int| 0 <= i < item.reviews@.len() && opt_text(item.reviews@[i].submitted_at) is Some implies #[trigger] keeps_stored_review(
        script,
        item.reviews@,
        i, pr_key, context,
    ) by {
        lemma_keeps_stored_review(script, reviews, after_row, item.reviews@, i, pr_key, context);
    }
    assert forall|i: int| 0 <= i < item.review_comments@.len() implies #[trigger] keeps_stored_review_comment(
        script,
        item.review_comments@,
        i, pr_key, context,
    ) by {
        lemma_keeps_stored_review_comment(script, threads, after_reviews, item.review_comments@, i, pr_key, context);
    }
    assert forall|i: int| 0 <= i < item.conversation_comments@.len() implies #[trigger] keeps_stored_conversation(
        script,
        item.conversation_comments@,
        i, pr_key, context,
    ) by {
        lemma_keeps_stored_conversation(script, talk, after_threads, item.conversation_comments@, i, pr_key, context);
    }
    if let Some(head_sha) = opt_text(item.head_sha) {
        assert forall|i: int| 0 <= i < item.check_runs@.len() implies #[trigger] keeps_stored_check(
            script,
            item.check_runs@,
            i, pr_key, head_sha,
        ) by {
            lemma_keeps_stored_check(script, checks, after_talk, item.check_runs@, i, pr_key, head_sha);
        }
    }
    assert forall|i: int| 0 <= i < item.files@.len() implies #[trigger] keeps_stored_file(
        script,
        item.files@,
        i, pr_key, repo_key,
    ) by {
        lemma_keeps_stored_file(script, files, after_checks, item.files@, i, pr_key, repo_key);
    }
}

proof fn lemma_pull_request_called_for(
    item: PullRequestData,
    repo_key: Seq<char>,
    pr_key: Seq<char>,
    context: Context,
)
    requires
        all_stamped(item, context),
        item.conversation_comments@.len() + item.review_comments@.len() <= i64::MAX,
        item.reviews@.len() <= i64::MAX,
    ensures
        only_runs(
            pull_request_script(item, repo_key, pr_key, context),
            called_for_by_a_pull_request(item, repo_key, pr_key, context),
        ),
{
    let script = pull_request_script(item, repo_key, pr_key, context);
    let called_for = called_for_by_a_pull_request(item, repo_key, pr_key, context);
    let preface = preface_script(item, context);
    let row = row_command(item, repo_key, pr_key, context);
    let reviews = reviews_script(item.reviews@, item.reviews@.len() as int, pr_key, context);
    let threads = review_comments_script(
        item.review_comments@,
        item.review_comments@.len() as int,
        pr_key,
        context,
    );
    let talk = conversation_script(
        item.conversation_comments@,
        item.conversation_comments@.len() as int,
        pr_key,
        context,
    );
    let checks = head_checks_script(item, pr_key);
    let files = files_script(item.files@, item.files@.len() as int, pr_key, repo_key);
    lemma_preface(item, context);
    law_a_pull_request_row_holds_what_was_fetched(item, repo_key, pr_key, context);
    lemma_stored_review(item.reviews@, item.reviews@.len() as int, pr_key, context);
    lemma_stored_review_comment(
        item.review_comments@,
        item.review_comments@.len() as int,
        pr_key,
        context,
    );
    lemma_stored_conversation(
        item.conversation_comments@,
        item.conversation_comments@.len() as int,
        pr_key,
        context,
    );
    if let Some(head_sha) = opt_text(item.head_sha) {
        lemma_stored_check(
            item.check_runs@,
            item.check_runs@.len() as int,
            pr_key,
            head_sha,
        );
    }
    lemma_stored_file(item.files@, item.files@.len() as int, pr_key, repo_key);
    lemma_wider(preface, |c: Command| is_background(c, context), called_for);
    assert(called_for(row));
    assert(only_runs(just(row), called_for));
    lemma_wider(reviews, among_stored_review(item.reviews@, pr_key, context), called_for);
    lemma_wider(
        threads,
        among_stored_review_comment(item.review_comments@, pr_key, context),
        called_for,
    );
    lemma_wider(
        talk,
        among_stored_conversation(item.conversation_comments@, pr_key, context),
        called_for,
    );
    if let Some(head_sha) = opt_text(item.head_sha) {
        lemma_wider(checks, among_stored_check(item.check_runs@, pr_key, head_sha), called_for);
    }
    assert(only_runs(checks, called_for));
    lemma_wider(files, among_stored_file(item.files@, pr_key, repo_key), called_for);
    let first = chained(preface, just(row));
    let second = chained(first, reviews);
    let third = chained(second, threads);
    let fourth = chained(third, talk);
    let fifth = chained(fourth, checks);
    lemma_only_runs(preface, just(row), called_for);
    lemma_only_runs(first, reviews, called_for);
    lemma_only_runs(second, threads, called_for);
    lemma_only_runs(third, talk, called_for);
    lemma_only_runs(fourth, checks, called_for);
    lemma_only_runs(fifth, files, called_for);
}

/// A pull request whose timestamps can be placed is stored whole, each field in
/// its column, whoever it names before it, and nothing else is written.
pub proof fn law_a_pull_request_is_stored_whole(
    item: PullRequestData,
    repo_key: Seq<char>,
    pr_key: Seq<char>,
    context: Context,
)
    requires
        all_stamped(item, context),
        item.conversation_comments@.len() + item.review_comments@.len() <= i64::MAX,
        item.reviews@.len() <= i64::MAX,
    ensures
        stores_all_of_a_pull_request(
            pull_request_script(item, repo_key, pr_key, context),
            item,
            repo_key,
            pr_key,
            context,
        ),
        only_runs(
            pull_request_script(item, repo_key, pr_key, context),
            called_for_by_a_pull_request(item, repo_key, pr_key, context),
        ),
{
    lemma_pull_request_stored(item, repo_key, pr_key, context);
    lemma_pull_request_called_for(item, repo_key, pr_key, context);
}

// ---------------------------------------------------------------- issues

/// Every timestamp of an issue that is stored can be placed.
pub open spec fn all_stamped_in_issue(item: IssueData, context: Context) -> bool {
    &&& is_stamped(item.created_at@, context)
    &&& forall|i: int|
        0 <= i < item.comments@.len() ==> is_stamped(
            (#[trigger] item.comments@[i]).created_at@,
            context,
        )
}

/// The entity of assignee `i` is stored.
pub open spec fn keeps_assignee(
    script: Script,
    assignees: Seq<ActorReference>,
    i: int,
    context: Context,
) -> bool {
    exists|k: int|
        0 <= k < script.commands.len() && stores_actor(
            #[trigger] script.commands[k],
            Some(assignees[i]),
            context,
        )
}

proof fn lemma_keeps_assignee(
    whole: Script,
    part: Script,
    offset: int,
    assignees: Seq<ActorReference>,
    i: int,
    context: Context,
)
    requires
        is_placed(whole, part, offset),
        keeps_assignee(part, assignees, i, context),
    ensures
        keeps_assignee(whole, assignees, i, context),
{
    let k = choose|k: int|
        0 <= k < part.commands.len() && stores_actor(
            #[trigger] part.commands[k],
            Some(assignees[i]),
            context,
        );
    assert(whole.commands[offset + k] == part.commands[k]);
}

proof fn lemma_assignees(assignees: Seq<ActorReference>, n: int, context: Context)
    requires
        0 <= n <= assignees.len(),
    ensures
        assignees_script(assignees, n, context).refusal is None,
        forall|i: int|
            0 <= i < n ==> #[trigger] keeps_assignee(
                assignees_script(assignees, n, context),
                assignees,
                i,
                context,
            ),
        only_runs(
            assignees_script(assignees, n, context),
            |c: Command| is_background(c, context),
        ),
    decreases n,
{
    if n > 0 {
        lemma_assignees(assignees, n - 1, context);
        let before = assignees_script(assignees, n - 1, context);
        let script = assignees_script(assignees, n, context);
        let own = actor_script(Some(assignees[n - 1]), context);
        lemma_actor_script(Some(assignees[n - 1]), context);
        lemma_only_runs(before, own, |c: Command| is_background(c, context));
        assert forall|i: int| 0 <= i < n implies #[trigger] keeps_assignee(
            script,
            assignees,
            i,
            context,
        ) by {
            if i < n - 1 {
                assert(is_placed(script, before, 0));
                lemma_keeps_assignee(script, before, 0, assignees, i, context);
            } else {
                assert(script.commands[before.commands.len() as int] == own.commands[0]);
            }
        }
    }
}

/// Everything that an issue holds is stored: its milestone and its author before
/// its row, then its labels and the links to them, its assignees and the links to
/// them, and its comments.
pub open spec fn stores_all_of_an_issue(
    script: Script,
    item: IssueData,
    repo_key: Seq<char>,
    context: Context,
) -> bool {
    &&& exists|k: int|
        {
            &&& 0 <= k < script.commands.len()
            &&& stores_issue(#[trigger] script.commands[k], item, repo_key, context)
            &&& knows_before(script, k, item.author, context)
            &&& item.milestone matches Some(milestone) ==> exists|j: int|
                0 <= j < k && stores_milestone(
                    #[trigger] script.commands[j],
                    milestone,
                    repo_key,
                )
        }
    &&& forall|i: int|
        0 <= i < item.labels@.len() ==> #[trigger] keeps_stored_label(
            script,
            item.labels@,
            i,
            repo_key,
        )
    &&& forall|i: int|
        0 <= i < item.assignees@.len() ==> #[trigger] keeps_assignee(
            script,
            item.assignees@,
            i,
            context,
        )
    &&& exists|offset: int| #[trigger] is_placed(script, all_of(label_links(item)), offset)
    &&& exists|offset: int| #[trigger]
        is_placed(script, all_of(assignee_links(item, context)), offset)
    &&& forall|i: int|
        0 <= i < item.comments@.len() ==> #[trigger] keeps_stored_issue_comment(
            script,
            item.comments@,
            i,
            item.id@,
            context,
        )
}

/// What may be run to store an issue: nothing but what it holds.
pub open spec fn called_for_by_an_issue(
    item: IssueData,
    repo_key: Seq<char>,
    context: Context,
) -> spec_fn(Command) -> bool {
    |command: Command|
        {
            ||| is_background(command, context)
            ||| stores_issue(command, item, repo_key, context)
            ||| item.milestone is Some && stores_milestone(
                command,
                item.milestone->Some_0,
                repo_key,
            )
            ||| among_stored_label(item.labels@, repo_key)(command)
            ||| label_links(item).contains(command)
            ||| assignee_links(item, context).contains(command)
            ||| among_stored_issue_comment(item.comments@, item.id@, context)(command)
        }
}

/// The command that stores the row of an issue.
spec fn issue_row(item: IssueData, repo_key: Seq<char>, context: Context) -> Command {
    issue_command(
        repo_key,
        item,
        Some(actor_key(item.author, context)),
        Some(stamp_date(item.created_at@, context)),
    )
}

proof fn lemma_issue_row(item: IssueData, repo_key: Seq<char>, context: Context)
    requires
        all_stamped_in_issue(item, context),
        item.comments@.len() <= i64::MAX,
    ensures
        ({
            let script = issue_row_script(item, repo_key, context);
            let at = script.commands.len() - 1;
            &&& script.refusal is None
            &&& script.commands.len() > 0
            &&& stores_issue(script.commands[at], item, repo_key, context)
            &&& knows_before(script, at, item.author, context)
            &&& item.milestone matches Some(milestone) ==> exists|j: int|
                0 <= j < at && stores_milestone(
                    #[trigger] script.commands[j],
                    milestone,
                    repo_key,
                )
            &&& only_runs(script, called_for_by_an_issue(item, repo_key, context))
        }),
{
    let script = issue_row_script(item, repo_key, context);
    let called_for = called_for_by_an_issue(item, repo_key, context);
    let author = actor_script(item.author, context);
    let created = stamp_script(item.created_at@, context);
    let milestone = milestone_script(item, repo_key);
    let row = issue_row(item, repo_key, context);
    lemma_actor_script(item.author, context);
    lemma_stamp_script(item.created_at@, context);
    law_an_issue_row_holds_what_was_fetched(item, repo_key, context);
    assert(script.commands =~= author.commands + created.commands + milestone.commands
        + seq![row]);
    let at = script.commands.len() - 1;
    assert(script.commands[at] == row);
    assert(script.commands[0] == author.commands[0]);
    assert(stores_actor(script.commands[0], item.author, context));
    if let Some(held) = item.milestone {
        law_a_milestone_row_holds_what_was_fetched(held, repo_key);
        assert(script.commands[at - 1] == milestone.commands[0]);
        assert(stores_milestone(script.commands[at - 1], held, repo_key));
        assert(called_for(milestone.commands[0]));
    }
    lemma_wider(author, |c: Command| is_background(c, context), called_for);
    lemma_wider(created, |c: Command| is_background(c, context), called_for);
    assert(only_runs(milestone, called_for));
    assert(called_for(row));
    assert(only_runs(just(row), called_for));
    lemma_only_runs(author, created, called_for);
    lemma_only_runs(chained(author, created), milestone, called_for);
    lemma_only_runs(chained(chained(author, created), milestone), just(row), called_for);
}

/// An issue whose timestamps can be placed is stored whole, each field in its
/// column, and nothing else is written.
pub proof fn law_an_issue_is_stored_whole(item: IssueData, repo_key: Seq<char>, context: Context)
    requires
        all_stamped_in_issue(item, context),
        item.comments@.len() <= i64::MAX,
    ensures
        issue_script(item, repo_key, context).refusal is None,
        stores_all_of_an_issue(
            issue_script(item, repo_key, context),
            item,
            repo_key,
            context,
        ),
        only_runs(
            issue_script(item, repo_key, context),
            called_for_by_an_issue(item, repo_key, context),
        ),
{
    let script = issue_script(item, repo_key, context);
    let called_for = called_for_by_an_issue(item, repo_key, context);
    let row = issue_row_script(item, repo_key, context);
    let labels = labels_script(item.labels@, item.labels@.len() as int, repo_key);
    let labeled = all_of(label_links(item));
    let people = assignees_script(item.assignees@, item.assignees@.len() as int, context);
    let assigned = all_of(assignee_links(item, context));
    let talk = issue_comments_script(
        item.comments@,
        item.comments@.len() as int,
        item.id@,
        context,
    );
    lemma_issue_row(item, repo_key, context);
    lemma_stored_label(item.labels@, item.labels@.len() as int, repo_key);
    lemma_assignees(item.assignees@, item.assignees@.len() as int, context);
    lemma_stored_issue_comment(item.comments@, item.comments@.len() as int, item.id@, context);
    assert(script.commands =~= row.commands + labels.commands + labeled.commands + people.commands
        + assigned.commands + talk.commands);
    let after_row: int = row.commands.len() as int;
    let after_labels: int = after_row + labels.commands.len();
    let after_labeled: int = after_labels + labeled.commands.len();
    let after_people: int = after_labeled + people.commands.len();
    let after_assigned: int = after_people + assigned.commands.len();
    assert(is_placed(script, row, 0));
    assert(is_placed(script, labels, after_row));
    assert(is_placed(script, labeled, after_labels));
    assert(is_placed(script, people, after_labeled));
    assert(is_placed(script, assigned, after_people));
    assert(is_placed(script, talk, after_assigned));
    let at = row.commands.len() - 1;
    assert(script.commands[at] == row.commands[at]);
    lemma_lift(script, row, 0, at, item.author, context);
    if let Some(held) = item.milestone {
        let j = choose|j: int|
            0 <= j < at && stores_milestone(#[trigger] row.commands[j], held, repo_key);
        assert(script.commands[j] == row.commands[j]);
    }
    assert forall|i: int| 0 <= i < item.labels@.len() implies #[trigger] keeps_stored_label(
        script,
        item.labels@,
        i,
        repo_key,
    ) by {
        lemma_keeps_stored_label(script, labels, after_row, item.labels@, i, repo_key);
    }
    assert forall|i: int| 0 <= i < item.assignees@.len() implies #[trigger] keeps_assignee(
        script,
        item.assignees@,
        i,
        context,
    ) by {
        lemma_keeps_assignee(script, people, after_labeled, item.assignees@, i, context);
    }
    assert forall|i: int|
        0 <= i < item.comments@.len() implies #[trigger] keeps_stored_issue_comment(
        script,
        item.comments@,
        i,
        item.id@,
        context,
    ) by {
        lemma_keeps_stored_issue_comment(
            script,
            talk,
            after_assigned,
            item.comments@,
            i,
            item.id@,
            context,
        );
    }
    lemma_wider(labels, among_stored_label(item.labels@, repo_key), called_for);
    assert(only_runs(labeled, called_for));
    lemma_wider(people, |c: Command| is_background(c, context), called_for);
    assert(only_runs(assigned, called_for));
    lemma_wider(
        talk,
        among_stored_issue_comment(item.comments@, item.id@, context),
        called_for,
    );
    let first = chained(row, labels);
    let second = chained(first, labeled);
    let third = chained(second, people);
    let fourth = chained(third, assigned);
    lemma_only_runs(row, labels, called_for);
    lemma_only_runs(first, labeled, called_for);
    lemma_only_runs(second, people, called_for);
    lemma_only_runs(third, assigned, called_for);
    lemma_only_runs(fourth, talk, called_for);
}

// ---------------------------------------------------------------- links

/// What one command makes of the links from issues that a table holds.
pub open spec fn links_after_one(
    command: Command,
    table: Seq<char>,
    column: Seq<char>,
    links: Set<(Seq<char>, Seq<char>)>,
) -> Set<(Seq<char>, Seq<char>)> {
    if command.sql == "DELETE FROM "@ + table + " WHERE issue_id = ?1"@ && command.params.len()
        == 1 {
        links.filter(
            |link: (Seq<char>, Seq<char>)| Cell::Text(link.0) != command.params[0],
        )
    } else if command.sql == "INSERT OR IGNORE INTO "@ + table + " (issue_id, "@ + column
        + ") VALUES (?1, ?2)"@ && command.params.len() == 2 && command.params[0] is Text
        && command.params[1] is Text {
        links.insert((command.params[0]->Text_0, command.params[1]->Text_0))
    } else {
        links
    }
}

/// What commands make of the links, one behind the other.
pub open spec fn links_after(
    commands: Seq<Command>,
    table: Seq<char>,
    column: Seq<char>,
    links: Set<(Seq<char>, Seq<char>)>,
) -> Set<(Seq<char>, Seq<char>)>
    decreases commands.len(),
{
    if commands.len() == 0 {
        links
    } else {
        links_after_one(
            commands.last(),
            table,
            column,
            links_after(commands.drop_last(), table, column, links),
        )
    }
}

proof fn lemma_links(
    delete_sql: Seq<char>,
    insert_sql: Seq<char>,
    table: Seq<char>,
    column: Seq<char>,
    issue_id: Seq<char>,
    targets: Seq<Seq<char>>,
    n: int,
    links: Set<(Seq<char>, Seq<char>)>,
)
    requires
        0 <= n <= targets.len(),
        delete_sql == "DELETE FROM "@ + table + " WHERE issue_id = ?1"@,
        insert_sql == "INSERT OR IGNORE INTO "@ + table + " (issue_id, "@ + column
            + ") VALUES (?1, ?2)"@,
        delete_sql != insert_sql,
    ensures
        forall|link: (Seq<char>, Seq<char>)| #[trigger]
            links_after(
                replace_links(delete_sql, insert_sql, issue_id, targets, n),
                table,
                column,
                links,
            ).contains(link) <==> if link.0 == issue_id {
                exists|i: int| 0 <= i < n && #[trigger] targets[i] == link.1
            } else {
                links.contains(link)
            },
    decreases n,
{
    reveal_with_fuel(links_after, 2);
    let list = replace_links(delete_sql, insert_sql, issue_id, targets, n);
    if n > 0 {
        lemma_links(delete_sql, insert_sql, table, column, issue_id, targets, n - 1, links);
        let before = replace_links(delete_sql, insert_sql, issue_id, targets, n - 1);
        assert(list.drop_last() =~= before);
        assert(list.last().params[1] == Cell::Text(targets[n - 1]));
        assert forall|link: (Seq<char>, Seq<char>)| #[trigger]
            links_after(list, table, column, links).contains(link) <==> if link.0 == issue_id {
                exists|i: int| 0 <= i < n && #[trigger] targets[i] == link.1
            } else {
                links.contains(link)
            } by {
            let kept = links_after(before, table, column, links);
            assert(links_after(list, table, column, links) == kept.insert(
                (issue_id, targets[n - 1]),
            ));
            assert(kept.contains(link) <==> if link.0 == issue_id {
                exists|i: int| 0 <= i < n - 1 && #[trigger] targets[i] == link.1
            } else {
                links.contains(link)
            });
        }
    } else {
        assert(list.drop_last() =~= Seq::<Command>::empty());
        assert(list.last().params.len() == 1);
    }
}

/// The labels of an issue are replaced: afterwards it is linked to the labels
/// that were fetched and to no others, and the links of other issues are as they
/// were.
pub proof fn law_an_issue_has_the_labels_that_were_fetched(
    item: IssueData,
    links: Set<(Seq<char>, Seq<char>)>,
    link: (Seq<char>, Seq<char>),
)
    ensures
        links_after(label_links(item), "issue_labels"@, "label_id"@, links).contains(link) <==> (if
        link.0 == item.id@ {
            exists|i: int| 0 <= i < item.labels@.len() && (#[trigger] item.labels@[i]).id@ == link.1
        } else {
            links.contains(link)
        }),
{
    reveal_strlit("DELETE FROM issue_labels WHERE issue_id = ?1");
    reveal_strlit("INSERT OR IGNORE INTO issue_labels (issue_id, label_id) VALUES (?1, ?2)");
    reveal_strlit("DELETE FROM ");
    reveal_strlit(" WHERE issue_id = ?1");
    reveal_strlit("INSERT OR IGNORE INTO ");
    reveal_strlit(" (issue_id, ");
    reveal_strlit(") VALUES (?1, ?2)");
    reveal_strlit("issue_labels");
    reveal_strlit("label_id");
    assert(DELETE_LABELS_SQL@ =~= "DELETE FROM "@ + "issue_labels"@ + " WHERE issue_id = ?1"@);
    assert(INSERT_LABEL_SQL@ =~= "INSERT OR IGNORE INTO "@ + "issue_labels"@ + " (issue_id, "@
        + "label_id"@ + ") VALUES (?1, ?2)"@);
    assert(DELETE_LABELS_SQL@.len() != INSERT_LABEL_SQL@.len());
    let targets = label_ids(item.labels@);
    lemma_links(
        DELETE_LABELS_SQL@,
        INSERT_LABEL_SQL@,
        "issue_labels"@,
        "label_id"@,
        item.id@,
        targets,
        item.labels@.len() as int,
        links,
    );
    assert forall|i: int| 0 <= i < item.labels@.len() implies #[trigger] targets[i]
        == item.labels@[i].id@ by {}
    if exists|i: int| 0 <= i < item.labels@.len() && (#[trigger] item.labels@[i]).id@ == link.1 {
        let i = choose|i: int|
            0 <= i < item.labels@.len() && (#[trigger] item.labels@[i]).id@ == link.1;
        assert(targets[i] == link.1);
    }
}

/// The assignees of an issue are replaced in the same way.
pub proof fn law_an_issue_has_the_assignees_that_were_fetched(
    item: IssueData,
    context: Context,
    links: Set<(Seq<char>, Seq<char>)>,
    link: (Seq<char>, Seq<char>),
)
    ensures
        links_after(
            assignee_links(item, context),
            "issue_assignees"@,
            "entity_key"@,
            links,
        ).contains(link) <==> (if link.0 == item.id@ {
            exists|i: int|
                0 <= i < item.assignees@.len() && #[trigger] is_entity_of(
                    link.1,
                    item.assignees@[i],
                    context,
                )
        } else {
            links.contains(link)
        }),
{
    reveal_strlit("DELETE FROM issue_assignees WHERE issue_id = ?1");
    reveal_strlit(
        "INSERT OR IGNORE INTO issue_assignees (issue_id, entity_key) VALUES (?1, ?2)",
    );
    reveal_strlit("DELETE FROM ");
    reveal_strlit(" WHERE issue_id = ?1");
    reveal_strlit("INSERT OR IGNORE INTO ");
    reveal_strlit(" (issue_id, ");
    reveal_strlit(") VALUES (?1, ?2)");
    reveal_strlit("issue_assignees");
    reveal_strlit("entity_key");
    assert(DELETE_ASSIGNEES_SQL@ =~= "DELETE FROM "@ + "issue_assignees"@
        + " WHERE issue_id = ?1"@);
    assert(INSERT_ASSIGNEE_SQL@ =~= "INSERT OR IGNORE INTO "@ + "issue_assignees"@
        + " (issue_id, "@ + "entity_key"@ + ") VALUES (?1, ?2)"@);
    assert(DELETE_ASSIGNEES_SQL@.len() != INSERT_ASSIGNEE_SQL@.len());
    let targets = assignee_keys(item.assignees@, context);
    lemma_links(
        DELETE_ASSIGNEES_SQL@,
        INSERT_ASSIGNEE_SQL@,
        "issue_assignees"@,
        "entity_key"@,
        item.id@,
        targets,
        item.assignees@.len() as int,
        links,
    );
    assert forall|i: int| 0 <= i < item.assignees@.len() implies (#[trigger] targets[i] == link.1
        <==> is_entity_of(link.1, item.assignees@[i], context)) by {
        lemma_actor(Some(item.assignees@[i]), context);
    }
    if exists|i: int|
        0 <= i < item.assignees@.len() && #[trigger] is_entity_of(
            link.1,
            item.assignees@[i],
            context,
        ) {
        let i = choose|i: int|
            0 <= i < item.assignees@.len() && #[trigger] is_entity_of(
                link.1,
                item.assignees@[i],
                context,
            );
        assert(targets[i] == link.1);
    }
}

/// The key is that of the entity of an account.
pub open spec fn is_entity_of(key: Seq<char>, actor: ActorReference, context: Context) -> bool {
    entity_cell(Some((actor.login@, actor.actor_type@)), context.bot_suffix) == Cell::Text(key)
}

// ---------------------------------------------------------------- from the response on

/// The command stores the comment of a node of the response.
#[verifier::opaque]
pub open spec fn stores_comment_node(
    command: Command,
    node: Json,
    parent_type: Seq<char>,
    parent_key: Seq<char>,
    context: Context,
) -> bool {
    &&& keeps_first(command, "fact_issue_comments"@, issue_comment_fields(), "comment_key"@, text_cell(text_at(node, "id"@)))
    &&& keeps_first(command, "fact_issue_comments"@, issue_comment_fields(), "parent_type"@, Cell::Text(parent_type))
    &&& keeps_first(command, "fact_issue_comments"@, issue_comment_fields(), "parent_key"@, Cell::Text(parent_key))
    &&& keeps_first(command, "fact_issue_comments"@, issue_comment_fields(), "author_key"@, entity_cell(actor_in(field(node, "author"@)), context.bot_suffix))
    &&& always_leaves(command, "fact_issue_comments"@, issue_comment_fields(), "body"@, text_cell(text_at(node, "body"@)))
    &&& keeps_first(command, "fact_issue_comments"@, issue_comment_fields(), "created_at"@, text_cell(text_at(node, "createdAt"@)))
    &&& keeps_first(command, "fact_issue_comments"@, issue_comment_fields(), "created_date_key"@, opt_date_cell(text_at(node, "createdAt"@), context.zone))
    &&& keeps_first(command, "fact_issue_comments"@, issue_comment_fields(), "created_time_key"@, opt_time_cell(text_at(node, "createdAt"@), context.zone))
}

/// What a node says of a comment reaches the column that it is stored in.
pub proof fn law_a_comment_node_reaches_its_columns(
    command: Command,
    item: ConversationCommentData,
    node: Json,
    parent_type: Seq<char>,
    parent_key: Seq<char>,
    context: Context,
)
    requires
        is_conversation_comment()(item, node),
        stores_comment(
            command,
            item.id@,
            parent_type,
            parent_key,
            item.author,
            opt_text(item.body),
            item.created_at@,
            context,
        ),
    ensures
        stores_comment_node(command, node, parent_type, parent_key, context),
{
    reveal(stores_comment);
    reveal(stores_comment_node);
}

/// What a node says of a comment on an issue reaches the column that it is stored
/// in.
pub proof fn law_an_issue_comment_node_reaches_its_columns(
    command: Command,
    item: IssueCommentData,
    node: Json,
    parent_type: Seq<char>,
    parent_key: Seq<char>,
    context: Context,
)
    requires
        is_issue_comment()(item, node),
        stores_comment(
            command,
            item.id@,
            parent_type,
            parent_key,
            item.author,
            opt_text(item.body),
            item.created_at@,
            context,
        ),
    ensures
        stores_comment_node(command, node, parent_type, parent_key, context),
{
    reveal(stores_comment);
    reveal(stores_comment_node);
}

/// The review of a node is stored.
pub open spec fn holds_review(
    script: Script,
    node: Json,
    submitted_at: Seq<char>,
    pr_key: Seq<char>,
    context: Context,
) -> bool {
    exists|k: int|
        0 <= k < script.commands.len() && stores_review_node(
            #[trigger] script.commands[k],
            node,
            submitted_at,
            pr_key,
            context,
        )
}

/// The review comment of a node is stored.
pub open spec fn holds_review_comment(
    script: Script,
    node: Json,
    pr_key: Seq<char>,
    context: Context,
) -> bool {
    exists|k: int|
        0 <= k < script.commands.len() && stores_review_comment_node(
            #[trigger] script.commands[k],
            node,
            pr_key,
            context,
        )
}

/// The comment of a node is stored.
pub open spec fn holds_comment(
    script: Script,
    node: Json,
    parent_type: Seq<char>,
    parent_key: Seq<char>,
    context: Context,
) -> bool {
    exists|k: int|
        0 <= k < script.commands.len() && stores_comment_node(
            #[trigger] script.commands[k],
            node,
            parent_type,
            parent_key,
            context,
        )
}

/// The check run of a node is stored.
pub open spec fn holds_check_run(
    script: Script,
    node: Json,
    pr_key: Seq<char>,
    head_sha: Seq<char>,
) -> bool {
    exists|k: int|
        0 <= k < script.commands.len() && stores_check_run_node(
            #[trigger] script.commands[k],
            node,
            pr_key,
            head_sha,
        )
}

/// The changed file of a node is stored.
pub open spec fn holds_file(
    script: Script,
    node: Json,
    pr_key: Seq<char>,
    repo_key: Seq<char>,
) -> bool {
    exists|k: int|
        0 <= k < script.commands.len() && stores_file_node(
            #[trigger] script.commands[k],
            node,
            pr_key,
            repo_key,
        )
}

/// The label of a node is stored.
pub open spec fn holds_label(
    script: Script,
    node: Json,
    repo_key: Seq<char>,
) -> bool {
    exists|k: int|
        0 <= k < script.commands.len() && stores_label_node(
            #[trigger] script.commands[k],
            node,
            repo_key,
        )
}

/// The commit that a commit node holds.
pub open spec fn commit_in(node: Json) -> Option<Json> {
    field(node, "commit"@)
}

/// Everything that the node of a pull request holds is stored: its row; each of
/// its `reviews` that is submitted; each of the `comments` of its `reviewThreads`;
/// each of its `comments`; each of its `files`; and, where its last commit has an
/// id, each of the `checkRuns` of the `checkSuites` of its `commits`, under that id.
/// A node without what identifies it is passed over.
pub open spec fn stores_all_of_the_node(
    script: Script,
    node: Json,
    repo_key: Seq<char>,
    pr_key: Seq<char>,
    context: Context,
) -> bool {
    let reviews = nodes_at(node, "reviews"@);
    let threads = nodes_at(node, "reviewThreads"@);
    let comments = nodes_at(node, "comments"@);
    let files = nodes_at(node, "files"@);
    let commits = nodes_at(node, "commits"@);
    &&& exists|k: int|
        0 <= k < script.commands.len() && stores_pull_request_node(
            #[trigger] script.commands[k],
            node,
            repo_key,
            pr_key,
            context,
        )
    &&& forall|j: int|
        0 <= j < reviews.len() && text_at(#[trigger] reviews[j], "id"@) is Some ==> (text_at(
            reviews[j],
            "submittedAt"@,
        ) matches Some(at) ==> holds_review(script, reviews[j], at, pr_key, context))
    &&& forall|i: int, j: int|
        #![trigger nodes_at(threads[i], "comments"@)[j]]
        0 <= i < threads.len() && 0 <= j < nodes_at(threads[i], "comments"@).len() && text_at(
            nodes_at(threads[i], "comments"@)[j],
            "id"@,
        ) is Some && text_at(nodes_at(threads[i], "comments"@)[j], "createdAt"@) is Some
            ==> holds_review_comment(
            script,
            nodes_at(threads[i], "comments"@)[j],
            pr_key,
            context,
        )
    &&& forall|j: int|
        0 <= j < comments.len() && text_at(#[trigger] comments[j], "id"@) is Some && text_at(
            comments[j],
            "createdAt"@,
        ) is Some ==> holds_comment(script, comments[j], "pull_request"@, pr_key, context)
    &&& forall|j: int|
        0 <= j < files.len() && text_at(#[trigger] files[j], "path"@) is Some ==> holds_file(
            script,
            files[j],
            pr_key,
            repo_key,
        )
    &&& commits.len() > 0 && commit_in(commits.last()) is Some ==> (text_at(
        commit_in(commits.last())->Some_0,
        "oid"@,
    ) matches Some(head) ==> forall|c: int, i: int, j: int|
        #![trigger nodes_at(nodes_at(commit_in(commits[c])->Some_0, "checkSuites"@)[i], "checkRuns"@)[j]]
        0 <= c < commits.len() && commit_in(commits[c]) is Some && is_run(
            commit_in(commits[c])->Some_0,
            i,
            j,
        ) ==> holds_check_run(
            script,
            nodes_at(nodes_at(commit_in(commits[c])->Some_0, "checkSuites"@)[i], "checkRuns"@)[j],
            pr_key,
            head,
        ))
}

/// Run `j` of suite `i` of a commit is there and has an id.
pub open spec fn is_run(commit: Json, i: int, j: int) -> bool {
    let suites = nodes_at(commit, "checkSuites"@);
    &&& 0 <= i < suites.len()
    &&& 0 <= j < nodes_at(suites[i], "checkRuns"@).len()
    &&& text_at(nodes_at(suites[i], "checkRuns"@)[j], "id"@) is Some
}

proof fn lemma_listed<T>(
    items: Seq<T>,
    elements: Seq<Json>,
    keep: spec_fn(Json) -> bool,
    stands_for: spec_fn(T, Json) -> bool,
    j: int,
) -> (i: int)
    requires
        listed(items, elements, keep, stands_for),
        0 <= j < elements.len(),
        keep(elements[j]),
    ensures
        0 <= i < items.len(),
        stands_for(items[i], elements[j]),
{
    elements.lemma_filter_contains(keep, j);
    let kept = elements.filter(keep);
    let i = choose|i: int| 0 <= i < kept.len() && kept[i] == elements[j];
    assert(stands_for(items[i], kept[i]));
    i
}

proof fn lemma_gathered(owners: Seq<Json>, collection: Seq<char>, i: int, j: int) -> (m: int)
    requires
        0 <= i < owners.len(),
        0 <= j < nodes_at(owners[i], collection).len(),
    ensures
        0 <= m < gathered(owners, collection).len(),
        gathered(owners, collection)[m] == nodes_at(owners[i], collection)[j],
    decreases owners.len(),
{
    let before = gathered(owners.drop_last(), collection);
    if i == owners.len() - 1 {
        (before.len() + j) as int
    } else {
        assert(owners.drop_last()[i] == owners[i]);
        lemma_gathered(owners.drop_last(), collection, i, j)
    }
}

proof fn lemma_commits(nodes: Seq<Json>, c: int) -> (m: int)
    requires
        0 <= c < nodes.len(),
        commit_in(nodes[c]) is Some,
    ensures
        0 <= m < commits_of(nodes).len(),
        commits_of(nodes)[m] == commit_in(nodes[c])->Some_0,
        c == nodes.len() - 1 ==> m == commits_of(nodes).len() - 1,
    decreases nodes.len(),
{
    if c == nodes.len() - 1 {
        commits_of(nodes).len() - 1
    } else {
        assert(nodes.drop_last()[c] == nodes[c]);
        lemma_commits(nodes.drop_last(), c)
    }
}

proof fn lemma_review_node(
    script: Script,
    item: PullRequestData,
    node: Json,
    pr_key: Seq<char>,
    context: Context,
    j: int,
)
    requires
        is_pull_request(item, node),
        forall|i: int|
            0 <= i < item.reviews@.len() && opt_text(item.reviews@[i].submitted_at) is Some
                ==> #[trigger] keeps_stored_review(script, item.reviews@, i, pr_key, context),
        0 <= j < nodes_at(node, "reviews"@).len(),
        text_at(nodes_at(node, "reviews"@)[j], "id"@) is Some,
        text_at(nodes_at(node, "reviews"@)[j], "submittedAt"@) is Some,
    ensures
        holds_review(
            script,
            nodes_at(node, "reviews"@)[j],
            text_at(nodes_at(node, "reviews"@)[j], "submittedAt"@)->Some_0,
            pr_key,
            context,
        ),
{
    let nodes = nodes_at(node, "reviews"@);
    let i = lemma_listed(item.reviews@, nodes, with_id(), is_review(), j);
    assert(keeps_stored_review(script, item.reviews@, i, pr_key, context));
    let k = choose|k: int|
        0 <= k < script.commands.len() && is_stored_review(
            #[trigger] script.commands[k],
            item.reviews@,
            i,
            pr_key,
            context,
        ) && knows_before(script, k, item.reviews@[i].author, context);
    law_a_review_node_reaches_its_columns(
        script.commands[k],
        item.reviews@[i],
        opt_text(item.reviews@[i].submitted_at)->Some_0,
        pr_key,
        context,
        nodes[j],
    );
}

proof fn lemma_review_comment_node(
    script: Script,
    items: Seq<ReviewCommentData>,
    nodes: Seq<Json>,
    j: int,
    pr_key: Seq<char>,
    context: Context,
)
    requires
        listed(items, nodes, with_id_and_date(), is_review_comment()),
        forall|i: int|
            0 <= i < items.len() ==> #[trigger] keeps_stored_review_comment(script, items, i, pr_key, context),
        0 <= j < nodes.len(),
        with_id_and_date()(nodes[j]),
    ensures
        holds_review_comment(script, nodes[j], pr_key, context),
{
    let i = lemma_listed(items, nodes, with_id_and_date(), is_review_comment(), j);
    assert(keeps_stored_review_comment(script, items, i, pr_key, context));
    let k = choose|k: int|
        0 <= k < script.commands.len() && is_stored_review_comment(
            #[trigger] script.commands[k],
            items,
            i, pr_key, context,
        ) && knows_before(script, k, items[i].author, context);
    let item = items[i];
    let command = script.commands[k];
    law_a_review_comment_node_reaches_its_columns(command, item, pr_key, context, nodes[j]);
}

proof fn lemma_comment_node(
    script: Script,
    items: Seq<ConversationCommentData>,
    nodes: Seq<Json>,
    j: int,
    parent: Seq<char>,
    context: Context,
)
    requires
        listed(items, nodes, with_id_and_date(), is_conversation_comment()),
        forall|i: int|
            0 <= i < items.len() ==> #[trigger] keeps_stored_conversation(script, items, i, parent, context),
        0 <= j < nodes.len(),
        with_id_and_date()(nodes[j]),
    ensures
        holds_comment(script, nodes[j], "pull_request"@, parent, context),
{
    let i = lemma_listed(items, nodes, with_id_and_date(), is_conversation_comment(), j);
    assert(keeps_stored_conversation(script, items, i, parent, context));
    let k = choose|k: int|
        0 <= k < script.commands.len() && is_stored_conversation(
            #[trigger] script.commands[k],
            items,
            i, parent, context,
        ) && knows_before(script, k, items[i].author, context);
    let item = items[i];
    let command = script.commands[k];
    law_a_comment_node_reaches_its_columns(command, item, nodes[j], "pull_request"@, parent, context);
}

proof fn lemma_issue_comment_node(
    script: Script,
    items: Seq<IssueCommentData>,
    nodes: Seq<Json>,
    j: int,
    parent: Seq<char>,
    context: Context,
)
    requires
        listed(items, nodes, with_id_and_date(), is_issue_comment()),
        forall|i: int|
            0 <= i < items.len() ==> #[trigger] keeps_stored_issue_comment(script, items, i, parent, context),
        0 <= j < nodes.len(),
        with_id_and_date()(nodes[j]),
    ensures
        holds_comment(script, nodes[j], "issue"@, parent, context),
{
    let i = lemma_listed(items, nodes, with_id_and_date(), is_issue_comment(), j);
    assert(keeps_stored_issue_comment(script, items, i, parent, context));
    let k = choose|k: int|
        0 <= k < script.commands.len() && is_stored_issue_comment(
            #[trigger] script.commands[k],
            items,
            i, parent, context,
        ) && knows_before(script, k, items[i].author, context);
    let item = items[i];
    let command = script.commands[k];
    law_an_issue_comment_node_reaches_its_columns(command, item, nodes[j], "issue"@, parent, context);
}

proof fn lemma_check_node(
    script: Script,
    items: Seq<CheckRunData>,
    nodes: Seq<Json>,
    j: int,
    pr_key: Seq<char>,
    head_sha: Seq<char>,
)
    requires
        listed(items, nodes, with_id(), is_check_run()),
        forall|i: int|
            0 <= i < items.len() ==> #[trigger] keeps_stored_check(script, items, i, pr_key, head_sha),
        0 <= j < nodes.len(),
        with_id()(nodes[j]),
    ensures
        holds_check_run(script, nodes[j], pr_key, head_sha),
{
    let i = lemma_listed(items, nodes, with_id(), is_check_run(), j);
    assert(keeps_stored_check(script, items, i, pr_key, head_sha));
    let k = choose|k: int|
        0 <= k < script.commands.len() && is_stored_check(
            #[trigger] script.commands[k],
            items,
            i, pr_key, head_sha,
        );
    let item = items[i];
    let command = script.commands[k];
    law_a_check_run_node_reaches_its_columns(command, item, pr_key, head_sha, nodes[j]);
}

proof fn lemma_file_node(
    script: Script,
    items: Seq<FileDiffData>,
    nodes: Seq<Json>,
    j: int,
    pr_key: Seq<char>,
    repo_key: Seq<char>,
)
    requires
        listed(items, nodes, with_path(), is_file()),
        forall|i: int|
            0 <= i < items.len() ==> #[trigger] keeps_stored_file(script, items, i, pr_key, repo_key),
        0 <= j < nodes.len(),
        with_path()(nodes[j]),
    ensures
        holds_file(script, nodes[j], pr_key, repo_key),
{
    let i = lemma_listed(items, nodes, with_path(), is_file(), j);
    assert(keeps_stored_file(script, items, i, pr_key, repo_key));
    let k = choose|k: int|
        0 <= k < script.commands.len() && is_stored_file(
            #[trigger] script.commands[k],
            items,
            i, pr_key, repo_key,
        );
    let item = items[i];
    let command = script.commands[k];
    law_a_file_node_reaches_its_columns(command, item, pr_key, repo_key, nodes[j]);
}

proof fn lemma_label_node(
    script: Script,
    items: Seq<LabelData>,
    nodes: Seq<Json>,
    j: int,
    repo_key: Seq<char>,
)
    requires
        listed(items, nodes, with_id(), is_label()),
        forall|i: int|
            0 <= i < items.len() ==> #[trigger] keeps_stored_label(script, items, i, repo_key),
        0 <= j < nodes.len(),
        with_id()(nodes[j]),
    ensures
        holds_label(script, nodes[j], repo_key),
{
    let i = lemma_listed(items, nodes, with_id(), is_label(), j);
    assert(keeps_stored_label(script, items, i, repo_key));
    let k = choose|k: int|
        0 <= k < script.commands.len() && is_stored_label(
            #[trigger] script.commands[k],
            items,
            i, repo_key,
        );
    let item = items[i];
    let command = script.commands[k];
    law_a_label_node_reaches_its_columns(command, item, repo_key, nodes[j]);
}

/// What the node of a pull request holds is stored, from the response on: every
/// collection of it reaches its table, and every field its column.
pub proof fn law_a_pull_request_node_is_stored_whole(
    script: Script,
    item: PullRequestData,
    node: Json,
    repo_key: Seq<char>,
    pr_key: Seq<char>,
    context: Context,
)
    requires
        is_pull_request(item, node),
        stores_all_of_a_pull_request(script, item, repo_key, pr_key, context),
    ensures
        stores_all_of_the_node(script, node, repo_key, pr_key, context),
{
    let reviews = nodes_at(node, "reviews"@);
    let threads = nodes_at(node, "reviewThreads"@);
    let comments = nodes_at(node, "comments"@);
    let files = nodes_at(node, "files"@);
    let commits = nodes_at(node, "commits"@);
    let k = choose|k: int|
        {
            &&& 0 <= k < script.commands.len()
            &&& stores_pull_request(
                #[trigger] script.commands[k],
                item,
                repo_key,
                pr_key,
                context,
            )
            &&& knows_before(script, k, item.author, context)
            &&& item.merged_by is Some ==> knows_before(script, k, item.merged_by, context)
            &&& is_dated_before(script, k, item.created_at@, context)
            &&& is_dated_if_any(script, k, opt_text(item.updated_at), context)
            &&& is_dated_if_any(script, k, opt_text(item.merged_at), context)
        };
    law_a_pull_request_node_reaches_its_columns(
        script.commands[k],
        item,
        node,
        repo_key,
        pr_key,
        context,
    );
    assert forall|j: int|
        0 <= j < reviews.len() && text_at(#[trigger] reviews[j], "id"@) is Some implies (text_at(
        reviews[j],
        "submittedAt"@,
    ) matches Some(at) ==> holds_review(script, reviews[j], at, pr_key, context)) by {
        if text_at(reviews[j], "submittedAt"@) is Some {
            lemma_review_node(script, item, node, pr_key, context, j);
        }
    }
    assert forall|i: int, j: int|
        #![trigger nodes_at(threads[i], "comments"@)[j]]
        0 <= i < threads.len() && 0 <= j < nodes_at(threads[i], "comments"@).len() && text_at(
            nodes_at(threads[i], "comments"@)[j],
            "id"@,
        ) is Some && text_at(
            nodes_at(threads[i], "comments"@)[j],
            "createdAt"@,
        ) is Some implies holds_review_comment(
        script,
        nodes_at(threads[i], "comments"@)[j],
        pr_key,
        context,
    ) by {
        let m = lemma_gathered(threads, "comments"@, i, j);
        lemma_review_comment_node(
            script,
            item.review_comments@,
            gathered(threads, "comments"@),
            m,
            pr_key,
            context,
        );
    }
    assert forall|j: int|
        0 <= j < comments.len() && text_at(#[trigger] comments[j], "id"@) is Some && text_at(
            comments[j],
            "createdAt"@,
        ) is Some implies holds_comment(
        script,
        comments[j],
        "pull_request"@,
        pr_key,
        context,
    ) by {
        lemma_comment_node(
            script,
            item.conversation_comments@,
            comments,
            j,
            pr_key,
            context,
        );
    }
    assert forall|j: int|
        0 <= j < files.len() && text_at(#[trigger] files[j], "path"@) is Some implies holds_file(
        script,
        files[j],
        pr_key,
        repo_key,
    ) by {
        lemma_file_node(script, item.files@, files, j, pr_key, repo_key);
    }
    if commits.len() > 0 && commit_in(commits.last()) is Some && text_at(
        commit_in(commits.last())->Some_0,
        "oid"@,
    ) is Some {
        let head = text_at(commit_in(commits.last())->Some_0, "oid"@)->Some_0;
        let last = lemma_commits(commits, commits.len() - 1);
        assert(opt_text(item.head_sha) == Some(head));
        assert forall|c: int, i: int, j: int|
            #![trigger nodes_at(nodes_at(commit_in(commits[c])->Some_0, "checkSuites"@)[i], "checkRuns"@)[j]]
            0 <= c < commits.len() && commit_in(commits[c]) is Some && is_run(
                commit_in(commits[c])->Some_0,
                i,
                j,
            ) implies holds_check_run(
            script,
            nodes_at(nodes_at(commit_in(commits[c])->Some_0, "checkSuites"@)[i], "checkRuns"@)[j],
            pr_key,
            head,
        ) by {
            let all = commits_of(commits);
            let m = lemma_commits(commits, c);
            let suites = gathered(all, "checkSuites"@);
            let at = lemma_gathered(all, "checkSuites"@, m, i);
            let run = lemma_gathered(suites, "checkRuns"@, at, j);
            lemma_check_node(
                script,
                item.check_runs@,
                gathered(suites, "checkRuns"@),
                run,
                pr_key,
                head,
            );
        }
    }
}

/// What the node of an issue holds is stored, from the response on: its row, its
/// `milestone`, its `labels` and its `comments`.
pub proof fn law_an_issue_node_is_stored_whole(
    script: Script,
    item: IssueData,
    node: Json,
    repo_key: Seq<char>,
    context: Context,
)
    requires
        is_issue(item, node),
        stores_all_of_an_issue(script, item, repo_key, context),
    ensures
        exists|k: int|
            0 <= k < script.commands.len() && stores_issue_node(
                #[trigger] script.commands[k],
                node,
                repo_key,
                context,
            ),
        solid_field(node, "milestone"@) matches Some(value) ==> text_at(value, "id"@) is Some
            ==> exists|k: int|
            0 <= k < script.commands.len() && stores_milestone_node(
                #[trigger] script.commands[k],
                value,
                repo_key,
            ),
        forall|j: int|
            0 <= j < nodes_at(node, "labels"@).len() && text_at(
                #[trigger] nodes_at(node, "labels"@)[j],
                "id"@,
            ) is Some ==> holds_label(script, nodes_at(node, "labels"@)[j], repo_key),
        forall|j: int|
            0 <= j < nodes_at(node, "comments"@).len() && text_at(
                #[trigger] nodes_at(node, "comments"@)[j],
                "id"@,
            ) is Some && text_at(nodes_at(node, "comments"@)[j], "createdAt"@) is Some
                ==> holds_comment(
                script,
                nodes_at(node, "comments"@)[j],
                "issue"@,
                item.id@,
                context,
            ),
{
    let labels = nodes_at(node, "labels"@);
    let comments = nodes_at(node, "comments"@);
    let k = choose|k: int|
        {
            &&& 0 <= k < script.commands.len()
            &&& stores_issue(#[trigger] script.commands[k], item, repo_key, context)
            &&& knows_before(script, k, item.author, context)
            &&& item.milestone matches Some(milestone) ==> exists|j: int|
                0 <= j < k && stores_milestone(
                    #[trigger] script.commands[j],
                    milestone,
                    repo_key,
                )
        };
    law_an_issue_node_reaches_its_columns(script.commands[k], item, repo_key, context, node);
    if let Some(milestone) = item.milestone {
        let j = choose|j: int|
            0 <= j < k && stores_milestone(#[trigger] script.commands[j], milestone, repo_key);
        let value = solid_field(node, "milestone"@)->Some_0;
        law_a_milestone_node_reaches_its_columns(script.commands[j], milestone, repo_key, value);
    }
    assert forall|j: int|
        0 <= j < labels.len() && text_at(#[trigger] labels[j], "id"@) is Some implies holds_label(
        script,
        labels[j],
        repo_key,
    ) by {
        lemma_label_node(script, item.labels@, labels, j, repo_key);
    }
    assert forall|j: int|
        0 <= j < comments.len() && text_at(#[trigger] comments[j], "id"@) is Some && text_at(
            comments[j],
            "createdAt"@,
        ) is Some implies holds_comment(script, comments[j], "issue"@, item.id@, context) by {
        lemma_issue_comment_node(script, item.comments@, comments, j, item.id@, context);
    }
}

// ---------------------------------------------------------------- patches

/// The command sets the patch of a stored file: the patch is replaced, a previous
/// path that is given is taken over, and the row is the one that the file was
/// stored under.
pub open spec fn sets_patch(
    command: Command,
    pr_key: Seq<char>,
    path: Seq<char>,
    previous_path: Option<Seq<char>>,
    patch: Option<Seq<char>>,
) -> bool {
    &&& command.sql
        == "UPDATE fact_file_diffs SET patch = ?1, previous_path = COALESCE(?2, previous_path)
         WHERE file_diff_key = ?3"@
    &&& command.params == seq![
        text_cell(patch),
        text_cell(previous_path),
        Cell::Text(pr_key + ":"@ + path),
    ]
}

proof fn lemma_patches(pr_key: Seq<char>, patches: Seq<FilePatch>, n: int)
    requires
        0 <= n <= patches.len(),
    ensures
        patch_commands(pr_key, patches, n).len() == n,
        forall|i: int|
            0 <= i < n ==> sets_patch(
                #[trigger] patch_commands(pr_key, patches, n)[i],
                pr_key,
                patches[i].0@,
                opt_text(patches[i].1),
                opt_text(patches[i].2),
            ),
    decreases n,
{
    if n > 0 {
        lemma_patches(pr_key, patches, n - 1);
        let before = patch_commands(pr_key, patches, n - 1);
        let list = patch_commands(pr_key, patches, n);
        assert forall|i: int| 0 <= i < n implies sets_patch(
            #[trigger] list[i],
            pr_key,
            patches[i].0@,
            opt_text(patches[i].1),
            opt_text(patches[i].2),
        ) by {
            if i < n - 1 {
                assert(list[i] == before[i]);
            }
        }
    }
}

/// Each file of the listing that has a name gets its patch, on the row that the
/// file of that path was stored under.
pub proof fn law_a_patch_reaches_the_row_of_its_file(
    pr_key: Seq<char>,
    repo_key: Seq<char>,
    patches: Seq<FilePatch>,
    nodes: Seq<Json>,
    j: int,
    file: FileDiffData,
)
    requires
        listed(patches, nodes, with_filename(), is_patch()),
        0 <= j < nodes.len(),
        text_at(nodes[j], "filename"@) == Some(file.path@),
    ensures
        exists|k: int|
            {
                &&& 0 <= k < patch_commands(pr_key, patches, patches.len() as int).len()
                &&& sets_patch(
                    #[trigger] patch_commands(pr_key, patches, patches.len() as int)[k],
                    pr_key,
                    file.path@,
                    text_at(nodes[j], "previous_filename"@),
                    text_at(nodes[j], "patch"@),
                )
                &&& sets(
                    file_diff_command(
                        pr_key,
                        repo_key,
                        file.path@,
                        None,
                        file.change_type@,
                        None,
                        file.additions as int,
                        file.deletions as int,
                    ),
                    "fact_file_diffs"@,
                    file_diff_fields(),
                    "file_diff_key"@,
                    patch_commands(pr_key, patches, patches.len() as int)[k].params[2],
                )
            },
{
    let i = lemma_listed(patches, nodes, with_filename(), is_patch(), j);
    lemma_patches(pr_key, patches, patches.len() as int);
    let list = patch_commands(pr_key, patches, patches.len() as int);
    assert(sets_patch(
        list[i],
        pr_key,
        patches[i].0@,
        opt_text(patches[i].1),
        opt_text(patches[i].2),
    ));
    law_a_file_row_holds_what_was_fetched(file, pr_key, repo_key);
    reveal(stores_file);
}

// ---------------------------------------------------------------- repositories

/// What a value says of a repository reaches the column that it is stored in: the
/// owner and the name that it is called by, in lower case, and its metadata.
pub proof fn law_a_repository_node_reaches_its_columns(
    item: RepositoryMetadata,
    node: Json,
    owner: Seq<char>,
    short: Seq<char>,
)
    requires
        is_metadata(item, node),
        lowercase(item.name_with_owner@) == owner + "/"@ + short,
        !owner.contains('/'),
    ensures
        text_at(node, "nameWithOwner"@) == Some(item.name_with_owner@),
        stores_repository(
            metadata_command(item),
            owner + "/"@ + short,
            owner,
            short,
            inner_text(node, "primaryLanguage"@, "name"@),
            flag_at(node, "isFork"@),
            flag_at(node, "isPrivate"@),
            inner_text(node, "defaultBranchRef"@, "name"@),
            text_at(node, "createdAt"@),
        ),
{
    law_a_repository_row_holds_its_metadata(
        owner + "/"@ + short,
        owner,
        short,
        inner_text(node, "primaryLanguage"@, "name"@),
        flag_at(node, "isFork"@),
        flag_at(node, "isPrivate"@),
        inner_text(node, "defaultBranchRef"@, "name"@),
        text_at(node, "createdAt"@),
    );
}

} // verus!
