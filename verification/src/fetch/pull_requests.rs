//! Pull-request fetching: GraphQL query text and typed parsing of responses.

use vstd::prelude::*;
use crate::error::{is_api, Error};
use crate::json::{
    count_at, field, flag_at, flag_field, get, get_solid, inner_string, inner_text, integer,
    integer_at, integer_field, lemma_listed_empty, lemma_listed_push, lemma_listed_skip, listed,
    nodes, nodes_at, solid_field, string_field, string_or, text_at, text_or, Json,
};
use crate::number::{decimal, is_digit, lemma_decimal_reads_back, push_decimal, push_signed, signed_decimal};
use crate::text::{begins_with, copy, finishes_with, has_text, opt_text, stands_at};

verus! {

/// The repository pull-requests query up to its page size.
pub const REPOSITORY_QUERY_HEAD: &'static str = "
query($owner: String!, $name: String!, $cursor: String) {
  rateLimit { limit cost remaining resetAt }
  repository(owner: $owner, name: $name) {
    nameWithOwner
    primaryLanguage { name }
    isFork
    isPrivate
    defaultBranchRef { name }
    createdAt
    pullRequests(first: ";

/// The repository pull-requests query behind its page size.
pub const REPOSITORY_QUERY_TAIL: &'static str = ", after: $cursor,
                 orderBy: {field: UPDATED_AT, direction: DESC}) {
      pageInfo { hasNextPage endCursor }
      nodes {
        number title body state isDraft
        createdAt updatedAt mergedAt closedAt
        baseRefName headRefName
        additions deletions changedFiles
        author { login __typename }
        mergedBy { login __typename }
        reviews(first: 50) {
          nodes {
            id state body submittedAt
            author { login __typename }
          }
        }
        reviewThreads(first: 50) {
          nodes {
            comments(first: 50) {
              nodes {
                id body path line createdAt
                author { login __typename }
                replyTo { id }
              }
            }
          }
        }
        comments(first: 50) {
          nodes {
            id body createdAt
            author { login __typename }
          }
        }
        files(first: 100) {
          nodes { path changeType additions deletions }
        }
        commits(last: 1) {
          nodes {
            commit {
              oid
              checkSuites(first: 10) {
                nodes {
                  checkRuns(first: 20) {
                    nodes { id name status conclusion startedAt completedAt }
                  }
                }
              }
            }
          }
        }
      }
    }
  }
}
";

/// The text of the repository pull-requests query for a page size.
pub open spec fn repository_query(page_size: nat) -> Seq<char> {
    REPOSITORY_QUERY_HEAD@ + decimal(page_size) + REPOSITORY_QUERY_TAIL@
}

/// GraphQL query for a repository's pull requests with nested reviews,
/// review-thread comments, conversation comments, files, and check runs.
/// `page_size` tunes the outer page: large repos with heavy PRs can overflow
/// GitHub's response stream at 25, so the syncer degrades adaptively.
pub fn repository_pull_requests_query(page_size: u32) -> (query: String)
    ensures
        query@ == repository_query(page_size as nat),
{
    let mut query = copy(REPOSITORY_QUERY_HEAD);
    push_decimal(&mut query, page_size as u64);
    query.append(REPOSITORY_QUERY_TAIL);
    query
}

// ---------------------------------------------------------------- data

/// An actor reference from GraphQL (`author { login __typename }`).
#[derive(Debug, Clone, PartialEq, Eq)]
pub struct ActorReference {
    pub login: String,
    pub actor_type: String,
}

/// Repository metadata from the query header.
#[derive(Debug, Clone)]
pub struct RepositoryMetadata {
    pub name_with_owner: String,
    pub primary_language: Option<String>,
    pub is_fork: bool,
    pub is_private: bool,
    pub default_branch: Option<String>,
    pub created_at: Option<String>,
}

/// One parsed pull request with all nested collections.
#[derive(Debug, Clone)]
pub struct PullRequestData {
    pub number: i64,
    pub title: Option<String>,
    pub body: Option<String>,
    pub state: String,
    pub is_draft: bool,
    pub created_at: String,
    pub updated_at: Option<String>,
    pub merged_at: Option<String>,
    pub closed_at: Option<String>,
    pub base_ref: Option<String>,
    pub head_ref: Option<String>,
    pub additions: i64,
    pub deletions: i64,
    pub changed_files: i64,
    pub author: Option<ActorReference>,
    pub merged_by: Option<ActorReference>,
    pub reviews: Vec<ReviewData>,
    pub review_comments: Vec<ReviewCommentData>,
    pub conversation_comments: Vec<ConversationCommentData>,
    pub files: Vec<FileDiffData>,
    pub head_sha: Option<String>,
    pub check_runs: Vec<CheckRunData>,
}

/// One review of a pull request.
#[derive(Debug, Clone)]
pub struct ReviewData {
    pub id: String,
    pub state: String,
    pub body: Option<String>,
    pub submitted_at: Option<String>,
    pub author: Option<ActorReference>,
}

/// One comment in a review thread.
#[derive(Debug, Clone)]
pub struct ReviewCommentData {
    pub id: String,
    pub body: Option<String>,
    pub path: Option<String>,
    pub line: Option<i64>,
    pub created_at: String,
    pub author: Option<ActorReference>,
    pub in_reply_to: Option<String>,
}

/// One conversation comment.
#[derive(Debug, Clone)]
pub struct ConversationCommentData {
    pub id: String,
    pub body: Option<String>,
    pub created_at: String,
    pub author: Option<ActorReference>,
}

/// One changed file.
#[derive(Debug, Clone)]
pub struct FileDiffData {
    pub path: String,
    pub change_type: String,
    pub additions: i64,
    pub deletions: i64,
}

/// One check run on the head commit.
#[derive(Debug, Clone)]
pub struct CheckRunData {
    pub id: String,
    pub name: String,
    pub status: String,
    pub conclusion: Option<String>,
    pub started_at: Option<String>,
    pub completed_at: Option<String>,
}

/// One page of PR results.
#[derive(Debug)]
pub struct PullRequestPage {
    pub repository: RepositoryMetadata,
    pub pull_requests: Vec<PullRequestData>,
    pub has_next_page: bool,
    pub end_cursor: Option<String>,
}

// ---------------------------------------------------------------- actors

/// The login and the type name of an actor.
pub open spec fn actor_view(actor: Option<ActorReference>) -> Option<(Seq<char>, Seq<char>)> {
    match actor {
        Some(actor) => Some((actor.login@, actor.actor_type@)),
        None => None,
    }
}

/// The actor that a value describes: nobody without a login, and a user unless
/// it says otherwise.
pub open spec fn actor_in(value: Option<Json>) -> Option<(Seq<char>, Seq<char>)> {
    match value {
        Some(value) => match text_at(value, "login"@) {
            Some(login) => Some((login, text_or(value, "__typename"@, "User"@))),
            None => None,
        },
        None => None,
    }
}

impl ActorReference {
    /// The actor that a value describes.
    pub fn from_value(value: &Json) -> (actor: Option<ActorReference>)
        ensures
            actor_view(actor) == actor_in(Some(*value)),
    {
        match string_field(value, "login") {
            Some(login) => Some(
                ActorReference { login, actor_type: string_or(value, "__typename", "User") },
            ),
            None => None,
        }
    }
}

/// The actor in a field.
pub fn actor(value: &Json, name: &str) -> (actor: Option<ActorReference>)
    ensures
        actor_view(actor) == actor_in(field(*value, name@)),
{
    match get(value, name) {
        Some(found) => ActorReference::from_value(found),
        None => None,
    }
}

// ---------------------------------------------------------------- collections

/// The nodes that one connection has under each of the owners, one behind the
/// other.
pub open spec fn gathered(owners: Seq<Json>, collection: Seq<char>) -> Seq<Json>
    decreases owners.len(),
{
    if owners.len() == 0 {
        Seq::empty()
    } else {
        gathered(owners.drop_last(), collection) + nodes_at(owners.last(), collection)
    }
}

/// One more owner adds its nodes.
proof fn lemma_gathered_push(owners: Seq<Json>, owner: Json, collection: Seq<char>)
    ensures
        gathered(owners.push(owner), collection) == gathered(owners, collection) + nodes_at(
            owner,
            collection,
        ),
{
    assert(owners.push(owner).drop_last() =~= owners);
}

/// The commits of a list of commit nodes.
pub open spec fn commits_of(commit_nodes: Seq<Json>) -> Seq<Json>
    decreases commit_nodes.len(),
{
    if commit_nodes.len() == 0 {
        Seq::empty()
    } else {
        match field(commit_nodes.last(), "commit"@) {
            Some(commit) => commits_of(commit_nodes.drop_last()).push(commit),
            None => commits_of(commit_nodes.drop_last()),
        }
    }
}

/// A text that is not empty.
pub open spec fn filled(text: Option<Seq<char>>) -> Option<Seq<char>> {
    match text {
        Some(text) => if text.len() == 0 {
            None
        } else {
            Some(text)
        },
        None => None,
    }
}

/// The node has an id.
pub open spec fn with_id() -> spec_fn(Json) -> bool {
    |node: Json| text_at(node, "id"@) is Some
}

/// The node has an id and says when it was created.
pub open spec fn with_id_and_date() -> spec_fn(Json) -> bool {
    |node: Json| text_at(node, "id"@) is Some && text_at(node, "createdAt"@) is Some
}

/// The node has a path.
pub open spec fn with_path() -> spec_fn(Json) -> bool {
    |node: Json| text_at(node, "path"@) is Some
}

/// The number of an optional integer.
pub open spec fn int_view(n: Option<i64>) -> Option<int> {
    match n {
        Some(n) => Some(n as int),
        None => None,
    }
}

/// The text of a field where it is not empty.
fn filled_string(value: &Json, name: &str) -> (text: Option<String>)
    ensures
        opt_text(text) == filled(text_at(*value, name@)),
{
    match string_field(value, name) {
        Some(text) => if text.as_str().unicode_len() == 0 {
            None
        } else {
            Some(text)
        },
        None => None,
    }
}

/// The text of a field, or an empty text.
pub fn string_or_empty(value: &Json, name: &str) -> (text: String)
    ensures
        text@ == text_or(*value, name@, Seq::empty()),
{
    match string_field(value, name) {
        Some(text) => text,
        None => String::new(),
    }
}

/// The review is what its node says.
pub open spec fn is_review() -> spec_fn(ReviewData, Json) -> bool {
    |item: ReviewData, node: Json|
        {
            &&& text_at(node, "id"@) == Some(item.id@)
            &&& item.state@ == text_or(node, "state"@, "COMMENTED"@)
            &&& opt_text(item.body) == filled(text_at(node, "body"@))
            &&& opt_text(item.submitted_at) == text_at(node, "submittedAt"@)
            &&& actor_view(item.author) == actor_in(field(node, "author"@))
        }
}

/// Append what the `reviews` of a value hold to what was read before.
fn add_reviews(out: &mut Vec<ReviewData>, owner: &Json, Ghost(seen): Ghost<Seq<Json>>)
    requires
        listed(old(out)@, seen, with_id(), is_review()),
    ensures
        listed(final(out)@, seen + nodes_at(*owner, "reviews"@), with_id(), is_review()),
{
    let list = match nodes(owner, "reviews") {
        Some(list) => list,
        None => {
            assert(seen + Seq::<Json>::empty() =~= seen);
            return ;
        },
    };
    let mut i: usize = 0;
    assert(seen + list@.take(0) =~= seen);
    while i < list.len()
        invariant
            i <= list.len(),
            listed(out@, seen + list@.take(i as int), with_id(), is_review()),
        decreases list.len() - i,
    {
        let node = &list[i];
        let id = match string_field(node, "id") {
            Some(text) => text,
            None => {
                proof {
                    lemma_listed_skip(out@, seen + list@.take(i as int), *node, with_id(), is_review());
                    assert((seen + list@.take(i as int)).push(*node) =~= seen + list@.take(i + 1));
                }
                i = i + 1;
                continue;
            },
        };
        let item = ReviewData {
            id,
            state: string_or(node, "state", "COMMENTED"),
            body: filled_string(node, "body"),
            submitted_at: string_field(node, "submittedAt"),
            author: actor(node, "author"),
        };
        proof {
            lemma_listed_push(out@, item, seen + list@.take(i as int), *node, with_id(), is_review());
            assert((seen + list@.take(i as int)).push(*node) =~= seen + list@.take(i + 1));
        }
        out.push(item);
        i = i + 1;
    }
    assert(list@.take(list@.len() as int) =~= list@);
}

/// The review comment is what its node says.
pub open spec fn is_review_comment() -> spec_fn(ReviewCommentData, Json) -> bool {
    |item: ReviewCommentData, node: Json|
        {
            &&& text_at(node, "id"@) == Some(item.id@)
            &&& opt_text(item.body) == text_at(node, "body"@)
            &&& opt_text(item.path) == text_at(node, "path"@)
            &&& int_view(item.line) == integer_at(node, "line"@)
            &&& text_at(node, "createdAt"@) == Some(item.created_at@)
            &&& actor_view(item.author) == actor_in(field(node, "author"@))
            &&& opt_text(item.in_reply_to) == inner_text(node, "replyTo"@, "id"@)
        }
}

/// Append what the `comments` of a value hold to what was read before.
fn add_review_comments(out: &mut Vec<ReviewCommentData>, owner: &Json, Ghost(seen): Ghost<Seq<Json>>)
    requires
        listed(old(out)@, seen, with_id_and_date(), is_review_comment()),
    ensures
        listed(final(out)@, seen + nodes_at(*owner, "comments"@), with_id_and_date(), is_review_comment()),
{
    let list = match nodes(owner, "comments") {
        Some(list) => list,
        None => {
            assert(seen + Seq::<Json>::empty() =~= seen);
            return ;
        },
    };
    let mut i: usize = 0;
    assert(seen + list@.take(0) =~= seen);
    while i < list.len()
        invariant
            i <= list.len(),
            listed(out@, seen + list@.take(i as int), with_id_and_date(), is_review_comment()),
        decreases list.len() - i,
    {
        let node = &list[i];
        let id = match string_field(node, "id") {
            Some(text) => text,
            None => {
                proof {
                    lemma_listed_skip(out@, seen + list@.take(i as int), *node, with_id_and_date(), is_review_comment());
                    assert((seen + list@.take(i as int)).push(*node) =~= seen + list@.take(i + 1));
                }
                i = i + 1;
                continue;
            },
        };
        let created_at = match string_field(node, "createdAt") {
            Some(text) => text,
            None => {
                proof {
                    lemma_listed_skip(out@, seen + list@.take(i as int), *node, with_id_and_date(), is_review_comment());
                    assert((seen + list@.take(i as int)).push(*node) =~= seen + list@.take(i + 1));
                }
                i = i + 1;
                continue;
            },
        };
        let item = ReviewCommentData {
            id,
            body: string_field(node, "body"),
            path: string_field(node, "path"),
            line: integer(node, "line"),
            created_at,
            author: actor(node, "author"),
            in_reply_to: inner_string(node, "replyTo", "id"),
        };
        proof {
            lemma_listed_push(out@, item, seen + list@.take(i as int), *node, with_id_and_date(), is_review_comment());
            assert((seen + list@.take(i as int)).push(*node) =~= seen + list@.take(i + 1));
        }
        out.push(item);
        i = i + 1;
    }
    assert(list@.take(list@.len() as int) =~= list@);
}

/// The conversation comment is what its node says.
pub open spec fn is_conversation_comment() -> spec_fn(ConversationCommentData, Json) -> bool {
    |item: ConversationCommentData, node: Json|
        {
            &&& text_at(node, "id"@) == Some(item.id@)
            &&& opt_text(item.body) == text_at(node, "body"@)
            &&& text_at(node, "createdAt"@) == Some(item.created_at@)
            &&& actor_view(item.author) == actor_in(field(node, "author"@))
        }
}

/// Append what the `comments` of a value hold to what was read before.
fn add_conversation(out: &mut Vec<ConversationCommentData>, owner: &Json, Ghost(seen): Ghost<Seq<Json>>)
    requires
        listed(old(out)@, seen, with_id_and_date(), is_conversation_comment()),
    ensures
        listed(final(out)@, seen + nodes_at(*owner, "comments"@), with_id_and_date(), is_conversation_comment()),
{
    let list = match nodes(owner, "comments") {
        Some(list) => list,
        None => {
            assert(seen + Seq::<Json>::empty() =~= seen);
            return ;
        },
    };
    let mut i: usize = 0;
    assert(seen + list@.take(0) =~= seen);
    while i < list.len()
        invariant
            i <= list.len(),
            listed(out@, seen + list@.take(i as int), with_id_and_date(), is_conversation_comment()),
        decreases list.len() - i,
    {
        let node = &list[i];
        let id = match string_field(node, "id") {
            Some(text) => text,
            None => {
                proof {
                    lemma_listed_skip(out@, seen + list@.take(i as int), *node, with_id_and_date(), is_conversation_comment());
                    assert((seen + list@.take(i as int)).push(*node) =~= seen + list@.take(i + 1));
                }
                i = i + 1;
                continue;
            },
        };
        let created_at = match string_field(node, "createdAt") {
            Some(text) => text,
            None => {
                proof {
                    lemma_listed_skip(out@, seen + list@.take(i as int), *node, with_id_and_date(), is_conversation_comment());
                    assert((seen + list@.take(i as int)).push(*node) =~= seen + list@.take(i + 1));
                }
                i = i + 1;
                continue;
            },
        };
        let item = ConversationCommentData {
            id,
            body: string_field(node, "body"),
            created_at,
            author: actor(node, "author"),
        };
        proof {
            lemma_listed_push(out@, item, seen + list@.take(i as int), *node, with_id_and_date(), is_conversation_comment());
            assert((seen + list@.take(i as int)).push(*node) =~= seen + list@.take(i + 1));
        }
        out.push(item);
        i = i + 1;
    }
    assert(list@.take(list@.len() as int) =~= list@);
}

/// The changed file is what its node says.
pub open spec fn is_file() -> spec_fn(FileDiffData, Json) -> bool {
    |item: FileDiffData, node: Json|
        {
            &&& text_at(node, "path"@) == Some(item.path@)
            &&& item.change_type@ == text_or(node, "changeType"@, "MODIFIED"@)
            &&& item.additions == count_at(node, "additions"@)
            &&& item.deletions == count_at(node, "deletions"@)
        }
}

/// Append what the `files` of a value hold to what was read before.
fn add_files(out: &mut Vec<FileDiffData>, owner: &Json, Ghost(seen): Ghost<Seq<Json>>)
    requires
        listed(old(out)@, seen, with_path(), is_file()),
    ensures
        listed(final(out)@, seen + nodes_at(*owner, "files"@), with_path(), is_file()),
{
    let list = match nodes(owner, "files") {
        Some(list) => list,
        None => {
            assert(seen + Seq::<Json>::empty() =~= seen);
            return ;
        },
    };
    let mut i: usize = 0;
    assert(seen + list@.take(0) =~= seen);
    while i < list.len()
        invariant
            i <= list.len(),
            listed(out@, seen + list@.take(i as int), with_path(), is_file()),
        decreases list.len() - i,
    {
        let node = &list[i];
        let path = match string_field(node, "path") {
            Some(text) => text,
            None => {
                proof {
                    lemma_listed_skip(out@, seen + list@.take(i as int), *node, with_path(), is_file());
                    assert((seen + list@.take(i as int)).push(*node) =~= seen + list@.take(i + 1));
                }
                i = i + 1;
                continue;
            },
        };
        let item = FileDiffData {
            path,
            change_type: string_or(node, "changeType", "MODIFIED"),
            additions: integer_field(node, "additions"),
            deletions: integer_field(node, "deletions"),
        };
        proof {
            lemma_listed_push(out@, item, seen + list@.take(i as int), *node, with_path(), is_file());
            assert((seen + list@.take(i as int)).push(*node) =~= seen + list@.take(i + 1));
        }
        out.push(item);
        i = i + 1;
    }
    assert(list@.take(list@.len() as int) =~= list@);
}

/// The check run is what its node says.
pub open spec fn is_check_run() -> spec_fn(CheckRunData, Json) -> bool {
    |item: CheckRunData, node: Json|
        {
            &&& text_at(node, "id"@) == Some(item.id@)
            &&& item.name@ == text_or(node, "name"@, Seq::empty())
            &&& item.status@ == text_or(node, "status"@, "COMPLETED"@)
            &&& opt_text(item.conclusion) == text_at(node, "conclusion"@)
            &&& opt_text(item.started_at) == text_at(node, "startedAt"@)
            &&& opt_text(item.completed_at) == text_at(node, "completedAt"@)
        }
}

/// Append what the `checkRuns` of a value hold to what was read before.
fn add_check_runs(out: &mut Vec<CheckRunData>, owner: &Json, Ghost(seen): Ghost<Seq<Json>>)
    requires
        listed(old(out)@, seen, with_id(), is_check_run()),
    ensures
        listed(final(out)@, seen + nodes_at(*owner, "checkRuns"@), with_id(), is_check_run()),
{
    let list = match nodes(owner, "checkRuns") {
        Some(list) => list,
        None => {
            assert(seen + Seq::<Json>::empty() =~= seen);
            return ;
        },
    };
    let mut i: usize = 0;
    assert(seen + list@.take(0) =~= seen);
    while i < list.len()
        invariant
            i <= list.len(),
            listed(out@, seen + list@.take(i as int), with_id(), is_check_run()),
        decreases list.len() - i,
    {
        let node = &list[i];
        let id = match string_field(node, "id") {
            Some(text) => text,
            None => {
                proof {
                    lemma_listed_skip(out@, seen + list@.take(i as int), *node, with_id(), is_check_run());
                    assert((seen + list@.take(i as int)).push(*node) =~= seen + list@.take(i + 1));
                }
                i = i + 1;
                continue;
            },
        };
        let item = CheckRunData {
            id,
            name: string_or_empty(node, "name"),
            status: string_or(node, "status", "COMPLETED"),
            conclusion: string_field(node, "conclusion"),
            started_at: string_field(node, "startedAt"),
            completed_at: string_field(node, "completedAt"),
        };
        proof {
            lemma_listed_push(out@, item, seen + list@.take(i as int), *node, with_id(), is_check_run());
            assert((seen + list@.take(i as int)).push(*node) =~= seen + list@.take(i + 1));
        }
        out.push(item);
        i = i + 1;
    }
    assert(list@.take(list@.len() as int) =~= list@);
}

/// The comments of all review threads.
fn read_review_comments(node: &Json) -> (out: Vec<ReviewCommentData>)
    ensures
        listed(
            out@,
            gathered(nodes_at(*node, "reviewThreads"@), "comments"@),
            with_id_and_date(),
            is_review_comment(),
        ),
{
    let mut out: Vec<ReviewCommentData> = Vec::new();
    proof {
        lemma_listed_empty::<ReviewCommentData>(with_id_and_date(), is_review_comment());
    }
    if let Some(threads) = nodes(node, "reviewThreads") {
        let mut i: usize = 0;
        assert(gathered(threads@.take(0), "comments"@) =~= Seq::empty());
        while i < threads.len()
            invariant
                i <= threads.len(),
                listed(
                    out@,
                    gathered(threads@.take(i as int), "comments"@),
                    with_id_and_date(),
                    is_review_comment(),
                ),
            decreases threads.len() - i,
        {
            proof {
                lemma_gathered_push(threads@.take(i as int), threads@[i as int], "comments"@);
                assert(threads@.take(i as int).push(threads@[i as int]) =~= threads@.take(i + 1));
            }
            add_review_comments(
                &mut out,
                &threads[i],
                Ghost(gathered(threads@.take(i as int), "comments"@)),
            );
            i = i + 1;
        }
        assert(threads@.take(threads@.len() as int) =~= threads@);
    }
    out
}

/// The check runs of the commits.
pub open spec fn runs_of(commits: Seq<Json>) -> Seq<Json> {
    gathered(gathered(commits, "checkSuites"@), "checkRuns"@)
}

/// The nodes of two lists of owners are the nodes of both.
proof fn lemma_gathered_add(left: Seq<Json>, right: Seq<Json>, collection: Seq<char>)
    ensures
        gathered(left + right, collection) == gathered(left, collection) + gathered(
            right,
            collection,
        ),
    decreases right.len(),
{
    if right.len() == 0 {
        assert(left + right =~= left);
        assert(gathered(left, collection) + Seq::<Json>::empty() =~= gathered(left, collection));
    } else {
        lemma_gathered_add(left, right.drop_last(), collection);
        assert((left + right).drop_last() =~= left + right.drop_last());
        assert(gathered(left, collection) + (gathered(right.drop_last(), collection) + nodes_at(
            right.last(),
            collection,
        )) =~= (gathered(left, collection) + gathered(right.drop_last(), collection)) + nodes_at(
            right.last(),
            collection,
        ));
    }
}

/// Append the check runs of a commit's suites to what was read before.
fn add_commit(out: &mut Vec<CheckRunData>, commit: &Json, Ghost(before): Ghost<Seq<Json>>)
    requires
        listed(old(out)@, runs_of(before), with_id(), is_check_run()),
    ensures
        listed(final(out)@, runs_of(before.push(*commit)), with_id(), is_check_run()),
{
    let ghost earlier = gathered(before, "checkSuites"@);
    proof {
        lemma_gathered_push(before, *commit, "checkSuites"@);
    }
    let suites = match nodes(commit, "checkSuites") {
        Some(suites) => suites,
        None => {
            assert(earlier + Seq::<Json>::empty() =~= earlier);
            return ;
        },
    };
    let mut i: usize = 0;
    assert(earlier + suites@.take(0) =~= earlier);
    while i < suites.len()
        invariant
            i <= suites.len(),
            listed(
                out@,
                gathered(earlier + suites@.take(i as int), "checkRuns"@),
                with_id(),
                is_check_run(),
            ),
        decreases suites.len() - i,
    {
        let ghost seen = earlier + suites@.take(i as int);
        proof {
            lemma_gathered_push(seen, suites@[i as int], "checkRuns"@);
            assert(seen.push(suites@[i as int]) =~= earlier + suites@.take(i + 1));
        }
        add_check_runs(out, &suites[i], Ghost(gathered(seen, "checkRuns"@)));
        i = i + 1;
    }
    assert(suites@.take(suites@.len() as int) =~= suites@);
}

/// The object id of the last commit.
pub open spec fn head_of(commits: Seq<Json>) -> Option<Seq<char>> {
    if commits.len() == 0 {
        None
    } else {
        text_at(commits.last(), "oid"@)
    }
}

/// The head commit's id and the check runs of all commits.
fn read_commits(node: &Json) -> (read: (Option<String>, Vec<CheckRunData>))
    ensures
        opt_text(read.0) == head_of(commits_of(nodes_at(*node, "commits"@))),
        listed(
            read.1@,
            runs_of(commits_of(nodes_at(*node, "commits"@))),
            with_id(),
            is_check_run(),
        ),
{
    let mut head_sha: Option<String> = None;
    let mut check_runs: Vec<CheckRunData> = Vec::new();
    proof {
        lemma_listed_empty::<CheckRunData>(with_id(), is_check_run());
        assert(runs_of(Seq::empty()) =~= Seq::empty());
    }
    if let Some(list) = nodes(node, "commits") {
        let mut i: usize = 0;
        assert(commits_of(list@.take(0)) =~= Seq::empty());
        while i < list.len()
            invariant
                i <= list.len(),
                opt_text(head_sha) == head_of(commits_of(list@.take(i as int))),
                listed(
                    check_runs@,
                    runs_of(commits_of(list@.take(i as int))),
                    with_id(),
                    is_check_run(),
                ),
            decreases list.len() - i,
        {
            assert(list@.take(i + 1).drop_last() =~= list@.take(i as int));
            assert(list@.take(i + 1).last() == list@[i as int]);
            if let Some(commit) = get(&list[i], "commit") {
                head_sha = string_field(commit, "oid");
                add_commit(&mut check_runs, commit, Ghost(commits_of(list@.take(i as int))));
            }
            i = i + 1;
        }
        assert(list@.take(list@.len() as int) =~= list@);
    }
    (head_sha, check_runs)
}

// ---------------------------------------------------------------- pull requests

/// The pull request is what its node says.
pub open spec fn is_pull_request(item: PullRequestData, node: Json) -> bool {
    &&& integer_at(node, "number"@) == Some(item.number as int)
    &&& opt_text(item.title) == text_at(node, "title"@)
    &&& opt_text(item.body) == text_at(node, "body"@)
    &&& item.state@ == text_or(node, "state"@, "OPEN"@)
    &&& item.is_draft == flag_at(node, "isDraft"@)
    &&& text_at(node, "createdAt"@) == Some(item.created_at@)
    &&& opt_text(item.updated_at) == text_at(node, "updatedAt"@)
    &&& opt_text(item.merged_at) == text_at(node, "mergedAt"@)
    &&& opt_text(item.closed_at) == text_at(node, "closedAt"@)
    &&& opt_text(item.base_ref) == text_at(node, "baseRefName"@)
    &&& opt_text(item.head_ref) == text_at(node, "headRefName"@)
    &&& item.additions == count_at(node, "additions"@)
    &&& item.deletions == count_at(node, "deletions"@)
    &&& item.changed_files == count_at(node, "changedFiles"@)
    &&& actor_view(item.author) == actor_in(field(node, "author"@))
    &&& actor_view(item.merged_by) == actor_in(field(node, "mergedBy"@))
    &&& listed(item.reviews@, nodes_at(node, "reviews"@), with_id(), is_review())
    &&& listed(
        item.review_comments@,
        gathered(nodes_at(node, "reviewThreads"@), "comments"@),
        with_id_and_date(),
        is_review_comment(),
    )
    &&& listed(
        item.conversation_comments@,
        nodes_at(node, "comments"@),
        with_id_and_date(),
        is_conversation_comment(),
    )
    &&& listed(item.files@, nodes_at(node, "files"@), with_path(), is_file())
    &&& opt_text(item.head_sha) == head_of(commits_of(nodes_at(node, "commits"@)))
    &&& listed(
        item.check_runs@,
        runs_of(commits_of(nodes_at(node, "commits"@))),
        with_id(),
        is_check_run(),
    )
}

/// Why a node is no pull request, if it is none.
pub open spec fn node_refusal(node: Json) -> Option<Seq<char>> {
    match integer_at(node, "number"@) {
        None => Some("pull request number missing"@),
        Some(number) => match text_at(node, "createdAt"@) {
            None => Some("PR #"@ + signed_decimal(number) + " has no createdAt"@),
            Some(_) => None,
        },
    }
}

/// Parse one pull-request node.
pub fn parse_pull_request_node(node: &Json) -> (outcome: Result<PullRequestData, Error>)
    ensures
        match node_refusal(*node) {
            Some(message) => outcome is Err && is_api(outcome->Err_0, message),
            None => outcome is Ok && is_pull_request(outcome->Ok_0, *node),
        },
{
    let number: i64 = match integer(node, "number") {
        Some(number) => number,
        None => return Err(Error::GitHubApi(copy("pull request number missing"))),
    };
    let created_at = match string_field(node, "createdAt") {
        Some(text) => text,
        None => {
            let mut message = copy("PR #");
            push_signed(&mut message, number);
            message.append(" has no createdAt");
            return Err(Error::GitHubApi(message));
        },
    };
    proof {
        lemma_listed_empty::<ReviewData>(with_id(), is_review());
        lemma_listed_empty::<ConversationCommentData>(
            with_id_and_date(),
            is_conversation_comment(),
        );
        lemma_listed_empty::<FileDiffData>(with_path(), is_file());
    }
    let mut reviews: Vec<ReviewData> = Vec::new();
    add_reviews(&mut reviews, node, Ghost(Seq::empty()));
    let review_comments = read_review_comments(node);
    let mut conversation_comments: Vec<ConversationCommentData> = Vec::new();
    add_conversation(&mut conversation_comments, node, Ghost(Seq::empty()));
    let mut files: Vec<FileDiffData> = Vec::new();
    add_files(&mut files, node, Ghost(Seq::empty()));
    proof {
        assert(Seq::<Json>::empty() + nodes_at(*node, "reviews"@) =~= nodes_at(*node, "reviews"@));
        assert(Seq::<Json>::empty() + nodes_at(*node, "comments"@) =~= nodes_at(
            *node,
            "comments"@,
        ));
        assert(Seq::<Json>::empty() + nodes_at(*node, "files"@) =~= nodes_at(*node, "files"@));
    }
    let (head_sha, check_runs) = read_commits(node);
    Ok(
        PullRequestData {
            number,
            title: string_field(node, "title"),
            body: string_field(node, "body"),
            state: string_or(node, "state", "OPEN"),
            is_draft: flag_field(node, "isDraft"),
            created_at,
            updated_at: string_field(node, "updatedAt"),
            merged_at: string_field(node, "mergedAt"),
            closed_at: string_field(node, "closedAt"),
            base_ref: string_field(node, "baseRefName"),
            head_ref: string_field(node, "headRefName"),
            additions: integer_field(node, "additions"),
            deletions: integer_field(node, "deletions"),
            changed_files: integer_field(node, "changedFiles"),
            author: actor(node, "author"),
            merged_by: actor(node, "mergedBy"),
            reviews,
            review_comments,
            conversation_comments,
            files,
            head_sha,
            check_runs,
        },
    )
}

// ---------------------------------------------------------------- pages

/// The metadata is what the repository value says.
pub open spec fn is_metadata(item: RepositoryMetadata, repository: Json) -> bool {
    &&& text_at(repository, "nameWithOwner"@) == Some(item.name_with_owner@)
    &&& opt_text(item.primary_language) == inner_text(repository, "primaryLanguage"@, "name"@)
    &&& item.is_fork == flag_at(repository, "isFork"@)
    &&& item.is_private == flag_at(repository, "isPrivate"@)
    &&& opt_text(item.default_branch) == inner_text(repository, "defaultBranchRef"@, "name"@)
    &&& opt_text(item.created_at) == text_at(repository, "createdAt"@)
}

/// Parse the metadata of a repository value.
pub fn parse_repository_metadata(repository: &Json) -> (outcome: Result<RepositoryMetadata, Error>)
    ensures
        match text_at(*repository, "nameWithOwner"@) {
            Some(_) => outcome is Ok && is_metadata(outcome->Ok_0, *repository),
            None => outcome is Err && is_api(
                outcome->Err_0,
                "repository.nameWithOwner missing"@,
            ),
        },
{
    let name_with_owner = match string_field(repository, "nameWithOwner") {
        Some(text) => text,
        None => return Err(Error::GitHubApi(copy("repository.nameWithOwner missing"))),
    };
    Ok(
        RepositoryMetadata {
            name_with_owner,
            primary_language: inner_string(repository, "primaryLanguage", "name"),
            is_fork: flag_field(repository, "isFork"),
            is_private: flag_field(repository, "isPrivate"),
            default_branch: inner_string(repository, "defaultBranchRef", "name"),
            created_at: string_field(repository, "createdAt"),
        },
    )
}

/// The connection says that there is another page.
pub open spec fn has_next(connection: Json) -> bool {
    field(connection, "pageInfo"@) matches Some(info) && flag_at(info, "hasNextPage"@)
}

/// The cursor at which the next page starts.
pub open spec fn next_cursor(connection: Json) -> Option<Seq<char>> {
    inner_text(connection, "pageInfo"@, "endCursor"@)
}

/// Whether there is another page, and where it starts.
pub fn read_page_info(connection: &Json) -> (info: (bool, Option<String>))
    ensures
        info.0 == has_next(*connection),
        opt_text(info.1) == next_cursor(*connection),
{
    match get(connection, "pageInfo") {
        Some(info) => (flag_field(info, "hasNextPage"), string_field(info, "endCursor")),
        None => (false, None),
    }
}

/// The first `n` nodes are pull requests.
pub open spec fn nodes_accepted(list: Seq<Json>, n: int) -> bool {
    forall|i: int| 0 <= i < n ==> node_refusal(#[trigger] list[i]) is None
}

/// The items are the pull requests of the nodes.
pub open spec fn are_pull_requests(items: Seq<PullRequestData>, list: Seq<Json>) -> bool {
    &&& items.len() == list.len()
    &&& forall|i: int| 0 <= i < items.len() ==> is_pull_request(#[trigger] items[i], list[i])
}

/// The outcome is the refusal of the first node that is no pull request.
pub open spec fn refuses_first_bad<T>(outcome: Result<T, Error>, list: Seq<Json>) -> bool {
    exists|n: int|
        {
            &&& 0 <= n < list.len()
            &&& nodes_accepted(list, n)
            &&& node_refusal(#[trigger] list[n]) matches Some(message) && outcome is Err && is_api(
                outcome->Err_0,
                message,
            )
        }
}

/// What parsing a page of pull requests yields.
pub open spec fn page_parsed(outcome: Result<PullRequestPage, Error>, data: Json) -> bool {
    match solid_field(data, "repository"@) {
        None => outcome is Err && is_api(outcome->Err_0, "repository not found in response"@),
        Some(repository) => if text_at(repository, "nameWithOwner"@) is None {
            outcome is Err && is_api(outcome->Err_0, "repository.nameWithOwner missing"@)
        } else {
            match field(repository, "pullRequests"@) {
                None => outcome is Err && is_api(
                    outcome->Err_0,
                    "repository.pullRequests missing"@,
                ),
                Some(connection) => {
                    let list = nodes_at(repository, "pullRequests"@);
                    if nodes_accepted(list, list.len() as int) {
                        &&& outcome is Ok
                        &&& is_metadata(outcome->Ok_0.repository, repository)
                        &&& are_pull_requests(outcome->Ok_0.pull_requests@, list)
                        &&& outcome->Ok_0.has_next_page == has_next(connection)
                        &&& opt_text(outcome->Ok_0.end_cursor) == next_cursor(connection)
                    } else {
                        refuses_first_bad(outcome, list)
                    }
                },
            }
        },
    }
}

/// Parse one page of the repository pull-requests query response (`data` value).
pub fn parse_pull_request_page(data: &Json) -> (outcome: Result<PullRequestPage, Error>)
    ensures
        page_parsed(outcome, *data),
{
    let repository = match get_solid(data, "repository") {
        Some(repository) => repository,
        None => return Err(Error::GitHubApi(copy("repository not found in response"))),
    };
    let metadata = match parse_repository_metadata(repository) {
        Ok(metadata) => metadata,
        Err(error) => return Err(error),
    };
    let connection = match get(repository, "pullRequests") {
        Some(connection) => connection,
        None => return Err(Error::GitHubApi(copy("repository.pullRequests missing"))),
    };
    let (has_next_page, end_cursor) = read_page_info(connection);
    let mut pull_requests: Vec<PullRequestData> = Vec::new();
    if let Some(list) = nodes(repository, "pullRequests") {
        let mut i: usize = 0;
        while i < list.len()
            invariant
                i <= list.len(),
                solid_field(*data, "repository"@) == Some(*repository),
                text_at(*repository, "nameWithOwner"@) is Some,
                field(*repository, "pullRequests"@) == Some(*connection),
                nodes_at(*repository, "pullRequests"@) == list@,
                nodes_accepted(list@, i as int),
                are_pull_requests(pull_requests@, list@.take(i as int)),
            decreases list.len() - i,
        {
            match parse_pull_request_node(&list[i]) {
                Ok(item) => {
                    let ghost before = pull_requests@;
                    pull_requests.push(item);
                    assert forall|k: int| 0 <= k < pull_requests@.len() implies is_pull_request(
                        #[trigger] pull_requests@[k],
                        list@.take(i + 1)[k],
                    ) by {
                        if k < i {
                            assert(is_pull_request(before[k], list@.take(i as int)[k]));
                        }
                    }
                },
                Err(error) => {
                    assert(!nodes_accepted(list@, list@.len() as int));
                    return Err(error);
                },
            }
            i = i + 1;
        }
        assert(list@.take(list@.len() as int) =~= list@);
    }
    Ok(PullRequestPage { repository: metadata, pull_requests, has_next_page, end_cursor })
}

// ---------------------------------------------------------------- REST patches

/// One file of the REST listing: its path, its previous path and its patch.
pub type FilePatch = (String, Option<String>, Option<String>);

/// The file has a name.
pub open spec fn with_filename() -> spec_fn(Json) -> bool {
    |node: Json| text_at(node, "filename"@) is Some
}

/// The patch is what its file says.
pub open spec fn is_patch() -> spec_fn(FilePatch, Json) -> bool {
    |item: FilePatch, node: Json|
        {
            &&& text_at(node, "filename"@) == Some(item.0@)
            &&& opt_text(item.1) == text_at(node, "previous_filename"@)
            &&& opt_text(item.2) == text_at(node, "patch"@)
        }
}

/// Parse the REST `/repos/{owner}/{name}/pulls/{number}/files` response into
/// (path, previous_path, patch) tuples for patch backfill.
pub fn parse_rest_file_patches(value: &Json) -> (patches: Vec<FilePatch>)
    ensures
        match *value {
            Json::Array(files) => listed(patches@, files@, with_filename(), is_patch()),
            _ => patches@.len() == 0,
        },
{
    let mut patches: Vec<FilePatch> = Vec::new();
    if let Json::Array(files) = value {
        let mut i: usize = 0;
        proof {
            lemma_listed_empty::<FilePatch>(with_filename(), is_patch());
            assert(files@.take(0) =~= Seq::empty());
        }
        while i < files.len()
            invariant
                i <= files.len(),
                *value == Json::Array(*files),
                listed(patches@, files@.take(i as int), with_filename(), is_patch()),
            decreases files.len() - i,
        {
            let node = &files[i];
            assert(files@.take(i as int).push(*node) =~= files@.take(i + 1));
            match string_field(node, "filename") {
                Some(path) => {
                    let item: FilePatch = (
                        path,
                        string_field(node, "previous_filename"),
                        string_field(node, "patch"),
                    );
                    proof {
                        lemma_listed_push(
                            patches@,
                            item,
                            files@.take(i as int),
                            *node,
                            with_filename(),
                            is_patch(),
                        );
                    }
                    patches.push(item);
                },
                None => {
                    proof {
                        lemma_listed_skip(
                            patches@,
                            files@.take(i as int),
                            *node,
                            with_filename(),
                            is_patch(),
                        );
                    }
                },
            }
            i = i + 1;
        }
        assert(files@.take(files@.len() as int) =~= files@);
    }
    patches
}

// ---------------------------------------------------------------- laws

/// The text in front of the page size ends where the size of the outer page
/// belongs, and no `Z` occurs in it.
proof fn lemma_query_head()
    ensures
        finishes_with(REPOSITORY_QUERY_HEAD@, "pullRequests(first: "@),
        forall|i: int|
            0 <= i < REPOSITORY_QUERY_HEAD@.len() ==> #[trigger] REPOSITORY_QUERY_HEAD@[i] != 'Z',
{
    reveal_strlit("pullRequests(first: ");
    reveal_strlit(
        "
query($owner: String!, $name: String!, $cursor: String) {
  rateLimit { limit cost remaining resetAt }
  repository(owner: $owner, name: $name) {
    nameWithOwner
    primaryLanguage { name }
    isFork
    isPrivate
    defaultBranchRef { name }
    createdAt
    pullRequests(first: ",
    );
    let text = REPOSITORY_QUERY_HEAD@;
    assert(text.skip(text.len() - "pullRequests(first: "@.len()) =~= "pullRequests(first: "@);
}

/// The text behind the page size goes on with the cursor of the outer page, and
/// no `Z` occurs in it.
proof fn lemma_query_tail()
    ensures
        begins_with(REPOSITORY_QUERY_TAIL@, ", after: $cursor,"@),
        forall|i: int|
            0 <= i < REPOSITORY_QUERY_TAIL@.len() ==> #[trigger] REPOSITORY_QUERY_TAIL@[i] != 'Z',
{
    reveal_strlit(", after: $cursor,");
    reveal_strlit(
        ", after: $cursor,
                 orderBy: {field: UPDATED_AT, direction: DESC}) {
      pageInfo { hasNextPage endCursor }
      nodes {
        number title body state isDraft
        createdAt updatedAt mergedAt closedAt
        baseRefName headRefName
        additions deletions changedFiles
        author { login __typename }
        mergedBy { login __typename }
        reviews(first: 50) {
          nodes {
            id state body submittedAt
            author { login __typename }
          }
        }
        reviewThreads(first: 50) {
          nodes {
            comments(first: 50) {
              nodes {
                id body path line createdAt
                author { login __typename }
                replyTo { id }
              }
            }
          }
        }
        comments(first: 50) {
          nodes {
            id body createdAt
            author { login __typename }
          }
        }
        files(first: 100) {
          nodes { path changeType additions deletions }
        }
        commits(last: 1) {
          nodes {
            commit {
              oid
              checkSuites(first: 10) {
                nodes {
                  checkRuns(first: 20) {
                    nodes { id name status conclusion startedAt completedAt }
                  }
                }
              }
            }
          }
        }
      }
    }
  }
}
",
    );
    let text = REPOSITORY_QUERY_TAIL@;
    assert(text.take(", after: $cursor,"@.len() as int) =~= ", after: $cursor,"@);
}

/// The page size stands in its one place, as the limit of the outer page in
/// front of the cursor. All else, the limits of the nested lists among it, is
/// the same for every size, and no `{PAGE_SIZE}` is left to fill in.
pub proof fn law_page_size_stands_in_its_place(page_size: nat)
    ensures
        begins_with(repository_query(page_size), REPOSITORY_QUERY_HEAD@),
        finishes_with(repository_query(page_size), REPOSITORY_QUERY_TAIL@),
        stands_at(
            repository_query(page_size),
            "pullRequests(first: "@ + decimal(page_size) + ", after: $cursor,"@,
            REPOSITORY_QUERY_HEAD@.len() - "pullRequests(first: "@.len(),
        ),
        !has_text(repository_query(page_size), "{PAGE_SIZE}"@),
{
    lemma_query_head();
    lemma_query_tail();
    lemma_decimal_reads_back(page_size);
    let query = repository_query(page_size);
    let head = REPOSITORY_QUERY_HEAD@;
    let tail = REPOSITORY_QUERY_TAIL@;
    let size = decimal(page_size);
    let before = "pullRequests(first: "@;
    let behind = ", after: $cursor,"@;
    assert(query.take(head.len() as int) =~= head);
    assert(query.skip(query.len() - tail.len()) =~= tail);
    let at = head.len() - before.len();
    let needle = before + size + behind;
    assert(query.subrange(at, at + needle.len()) =~= needle) by {
        assert forall|i: int| 0 <= i < before.len() implies head[at + i] == #[trigger] before[i] by {
            assert(head.skip(at)[i] == before[i]);
        }
        assert forall|i: int| 0 <= i < behind.len() implies tail[i] == #[trigger] behind[i] by {
            assert(tail.take(behind.len() as int)[i] == behind[i]);
        }
    }
    assert forall|i: int| 0 <= i < query.len() implies #[trigger] query[i] != 'Z' by {
        if head.len() <= i < head.len() + size.len() {
            assert(is_digit(size[i - head.len()]));
        }
    }
    if has_text(query, "{PAGE_SIZE}"@) {
        reveal_strlit("{PAGE_SIZE}");
        let at = choose|at: int| stands_at(query, "{PAGE_SIZE}"@, at);
        assert(query.subrange(at, at + "{PAGE_SIZE}"@.len())[8] == 'Z');
        assert(query[at + 8] == 'Z');
    }
}

} // verus!
