//! Issue fetching: GraphQL query text and typed parsing of responses.

use vstd::prelude::*;
use crate::error::{is_api, Error};
use crate::fetch::pull_requests::{
    actor, actor_in, actor_view, has_next, next_cursor, read_page_info, string_or_empty, with_id,
    with_id_and_date, ActorReference,
};
use crate::json::{
    count_at, field, get, get_solid, integer, integer_at, integer_field, lemma_listed_empty,
    lemma_listed_push, lemma_listed_skip, listed, nodes, nodes_at, solid_field, string_field,
    string_or, text_at, text_or, Json,
};
use crate::number::{push_signed, signed_decimal};
use crate::text::{copy, lower, lowercase, opt_text};

verus! {

/// GraphQL query for a repository's issues with labels, milestone,
/// assignees, and comments.
pub const REPOSITORY_ISSUES_QUERY: &'static str = "
query($owner: String!, $name: String!, $cursor: String) {
  rateLimit { limit cost remaining resetAt }
  repository(owner: $owner, name: $name) {
    nameWithOwner
    issues(first: 50, after: $cursor,
           orderBy: {field: UPDATED_AT, direction: DESC}) {
      pageInfo { hasNextPage endCursor }
      nodes {
        id number title body state stateReason
        createdAt updatedAt closedAt
        author { login __typename }
        milestone { id number title description state dueOn createdAt }
        labels(first: 20) { nodes { id name color description } }
        assignees(first: 10) { nodes { login __typename } }
        comments(first: 50) {
          nodes {
            id body createdAt
            author { login __typename }
          }
        }
      }
    }
  }
}
";

/// One label of an issue.
#[derive(Debug, Clone)]
pub struct LabelData {
    pub id: String,
    pub name: String,
    pub color: String,
    pub description: String,
}

/// The milestone of an issue.
#[derive(Debug, Clone)]
pub struct MilestoneData {
    pub id: String,
    pub number: i64,
    pub title: String,
    pub description: Option<String>,
    pub state: String,
    pub due_on: Option<String>,
    pub created_at: Option<String>,
}

/// One comment on an issue.
#[derive(Debug, Clone)]
pub struct IssueCommentData {
    pub id: String,
    pub body: Option<String>,
    pub created_at: String,
    pub author: Option<ActorReference>,
}

/// One parsed issue with all nested collections.
#[derive(Debug, Clone)]
pub struct IssueData {
    pub id: String,
    pub number: i64,
    pub title: String,
    pub body: Option<String>,
    pub state: String,
    pub state_reason: Option<String>,
    pub created_at: String,
    pub updated_at: String,
    pub closed_at: Option<String>,
    pub author: Option<ActorReference>,
    pub milestone: Option<MilestoneData>,
    pub labels: Vec<LabelData>,
    pub assignees: Vec<ActorReference>,
    pub comments: Vec<IssueCommentData>,
}

/// One page of issue results.
#[derive(Debug)]
pub struct IssuePage {
    pub issues: Vec<IssueData>,
    pub has_next_page: bool,
    pub end_cursor: Option<String>,
}

// ---------------------------------------------------------------- parts

/// The node has a login.
pub open spec fn with_login() -> spec_fn(Json) -> bool {
    |node: Json| text_at(node, "login"@) is Some
}

/// The label is what its node says.
pub open spec fn is_label() -> spec_fn(LabelData, Json) -> bool {
    |item: LabelData, node: Json|
        {
            &&& text_at(node, "id"@) == Some(item.id@)
            &&& item.name@ == text_or(node, "name"@, Seq::empty())
            &&& item.color@ == text_or(node, "color"@, Seq::empty())
            &&& item.description@ == text_or(node, "description"@, Seq::empty())
        }
}

/// Append what the `labels` of a value hold to what was read before.
fn add_labels(out: &mut Vec<LabelData>, owner: &Json, Ghost(seen): Ghost<Seq<Json>>)
    requires
        listed(old(out)@, seen, with_id(), is_label()),
    ensures
        listed(final(out)@, seen + nodes_at(*owner, "labels"@), with_id(), is_label()),
{
    let list = match nodes(owner, "labels") {
        Some(list) => list,
        None => {
            assert(seen + Seq::<Json>::empty() =~= seen);
            return ;
        },
    };
    let mut i: usize = 0;
    assert(seen + list@.take(0) =~= seen);
    while i < list.len()
        invariant
            i <= list.len(),
            listed(out@, seen + list@.take(i as int), with_id(), is_label()),
        decreases list.len() - i,
    {
        let node = &list[i];
        let id = match string_field(node, "id") {
            Some(text) => text,
            None => {
                proof {
                    lemma_listed_skip(out@, seen + list@.take(i as int), *node, with_id(), is_label());
                    assert((seen + list@.take(i as int)).push(*node) =~= seen + list@.take(i + 1));
                }
                i = i + 1;
                continue;
            },
        };
        let item = LabelData {
            id,
            name: string_or_empty(node, "name"),
            color: string_or_empty(node, "color"),
            description: string_or_empty(node, "description"),
        };
        proof {
            lemma_listed_push(out@, item, seen + list@.take(i as int), *node, with_id(), is_label());
            assert((seen + list@.take(i as int)).push(*node) =~= seen + list@.take(i + 1));
        }
        out.push(item);
        i = i + 1;
    }
    assert(list@.take(list@.len() as int) =~= list@);
}

/// The assignee is what its node says.
pub open spec fn is_assignee() -> spec_fn(ActorReference, Json) -> bool {
    |item: ActorReference, node: Json|
        {
            &&& text_at(node, "login"@) == Some(item.login@)
            &&& item.actor_type@ == text_or(node, "__typename"@, "User"@)
        }
}

/// Append what the `assignees` of a value hold to what was read before.
fn add_assignees(out: &mut Vec<ActorReference>, owner: &Json, Ghost(seen): Ghost<Seq<Json>>)
    requires
        listed(old(out)@, seen, with_login(), is_assignee()),
    ensures
        listed(final(out)@, seen + nodes_at(*owner, "assignees"@), with_login(), is_assignee()),
{
    let list = match nodes(owner, "assignees") {
        Some(list) => list,
        None => {
            assert(seen + Seq::<Json>::empty() =~= seen);
            return ;
        },
    };
    let mut i: usize = 0;
    assert(seen + list@.take(0) =~= seen);
    while i < list.len()
        invariant
            i <= list.len(),
            listed(out@, seen + list@.take(i as int), with_login(), is_assignee()),
        decreases list.len() - i,
    {
        let node = &list[i];
        let login = match string_field(node, "login") {
            Some(text) => text,
            None => {
                proof {
                    lemma_listed_skip(out@, seen + list@.take(i as int), *node, with_login(), is_assignee());
                    assert((seen + list@.take(i as int)).push(*node) =~= seen + list@.take(i + 1));
                }
                i = i + 1;
                continue;
            },
        };
        let item = ActorReference {
            login,
            actor_type: string_or(node, "__typename", "User"),
        };
        proof {
            lemma_listed_push(out@, item, seen + list@.take(i as int), *node, with_login(), is_assignee());
            assert((seen + list@.take(i as int)).push(*node) =~= seen + list@.take(i + 1));
        }
        out.push(item);
        i = i + 1;
    }
    assert(list@.take(list@.len() as int) =~= list@);
}

/// The issue comment is what its node says.
pub open spec fn is_issue_comment() -> spec_fn(IssueCommentData, Json) -> bool {
    |item: IssueCommentData, node: Json|
        {
            &&& text_at(node, "id"@) == Some(item.id@)
            &&& opt_text(item.body) == text_at(node, "body"@)
            &&& text_at(node, "createdAt"@) == Some(item.created_at@)
            &&& actor_view(item.author) == actor_in(field(node, "author"@))
        }
}

/// Append what the `comments` of a value hold to what was read before.
fn add_comments(out: &mut Vec<IssueCommentData>, owner: &Json, Ghost(seen): Ghost<Seq<Json>>)
    requires
        listed(old(out)@, seen, with_id_and_date(), is_issue_comment()),
    ensures
        listed(final(out)@, seen + nodes_at(*owner, "comments"@), with_id_and_date(), is_issue_comment()),
{
    let list = match nodes(owner, "comments") {
        Some(list) => list,
        None => {
            assert(seen + Seq::<Json>::empty() =~= seen);
            return ;
        },
    };
    let mut i: usize = 0;
    assert(seen + list@.take(0) =~= seen);
    while i < list.len()
        invariant
            i <= list.len(),
            listed(out@, seen + list@.take(i as int), with_id_and_date(), is_issue_comment()),
        decreases list.len() - i,
    {
        let node = &list[i];
        let id = match string_field(node, "id") {
            Some(text) => text,
            None => {
                proof {
                    lemma_listed_skip(out@, seen + list@.take(i as int), *node, with_id_and_date(), is_issue_comment());
                    assert((seen + list@.take(i as int)).push(*node) =~= seen + list@.take(i + 1));
                }
                i = i + 1;
                continue;
            },
        };
        let created_at = match string_field(node, "createdAt") {
            Some(text) => text,
            None => {
                proof {
                    lemma_listed_skip(out@, seen + list@.take(i as int), *node, with_id_and_date(), is_issue_comment());
                    assert((seen + list@.take(i as int)).push(*node) =~= seen + list@.take(i + 1));
                }
                i = i + 1;
                continue;
            },
        };
        let item = IssueCommentData {
            id,
            body: string_field(node, "body"),
            created_at,
            author: actor(node, "author"),
        };
        proof {
            lemma_listed_push(out@, item, seen + list@.take(i as int), *node, with_id_and_date(), is_issue_comment());
            assert((seen + list@.take(i as int)).push(*node) =~= seen + list@.take(i + 1));
        }
        out.push(item);
        i = i + 1;
    }
    assert(list@.take(list@.len() as int) =~= list@);
}

/// The milestone is what its value says.
pub open spec fn is_milestone(item: MilestoneData, value: Json) -> bool {
    &&& text_at(value, "id"@) == Some(item.id@)
    &&& item.number == count_at(value, "number"@)
    &&& item.title@ == text_or(value, "title"@, Seq::empty())
    &&& opt_text(item.description) == text_at(value, "description"@)
    &&& item.state@ == text_or(value, "state"@, "OPEN"@)
    &&& opt_text(item.due_on) == text_at(value, "dueOn"@)
    &&& opt_text(item.created_at) == text_at(value, "createdAt"@)
}

/// The milestone of an issue node: none where the field is null or has no id.
pub open spec fn milestone_read(item: Option<MilestoneData>, node: Json) -> bool {
    match solid_field(node, "milestone"@) {
        Some(value) => if text_at(value, "id"@) is Some {
            item matches Some(milestone) && is_milestone(milestone, value)
        } else {
            item is None
        },
        None => item is None,
    }
}

fn read_milestone(node: &Json) -> (item: Option<MilestoneData>)
    ensures
        milestone_read(item, *node),
{
    let value = match get_solid(node, "milestone") {
        Some(value) => value,
        None => return None,
    };
    match string_field(value, "id") {
        Some(id) => Some(
            MilestoneData {
                id,
                number: integer_field(value, "number"),
                title: string_or_empty(value, "title"),
                description: string_field(value, "description"),
                state: string_or(value, "state", "OPEN"),
                due_on: string_field(value, "dueOn"),
                created_at: string_field(value, "createdAt"),
            },
        ),
        None => None,
    }
}

// ---------------------------------------------------------------- issues

/// A text in lower case.
pub open spec fn lowered(text: Option<Seq<char>>) -> Option<Seq<char>> {
    match text {
        Some(text) => Some(lowercase(text)),
        None => None,
    }
}

/// The issue is what its node says.
pub open spec fn is_issue(item: IssueData, node: Json) -> bool {
    &&& text_at(node, "id"@) == Some(item.id@)
    &&& integer_at(node, "number"@) == Some(item.number as int)
    &&& item.title@ == text_or(node, "title"@, Seq::empty())
    &&& opt_text(item.body) == text_at(node, "body"@)
    &&& item.state@ == lowercase(text_or(node, "state"@, "OPEN"@))
    &&& opt_text(item.state_reason) == lowered(text_at(node, "stateReason"@))
    &&& text_at(node, "createdAt"@) == Some(item.created_at@)
    &&& item.updated_at@ == text_or(node, "updatedAt"@, item.created_at@)
    &&& opt_text(item.closed_at) == text_at(node, "closedAt"@)
    &&& actor_view(item.author) == actor_in(field(node, "author"@))
    &&& milestone_read(item.milestone, node)
    &&& listed(item.labels@, nodes_at(node, "labels"@), with_id(), is_label())
    &&& listed(item.assignees@, nodes_at(node, "assignees"@), with_login(), is_assignee())
    &&& listed(
        item.comments@,
        nodes_at(node, "comments"@),
        with_id_and_date(),
        is_issue_comment(),
    )
}

/// Why a node is no issue, if it is none.
pub open spec fn issue_refusal(node: Json) -> Option<Seq<char>> {
    if text_at(node, "id"@) is None {
        Some("issue id missing"@)
    } else {
        match integer_at(node, "number"@) {
            None => Some("issue number missing"@),
            Some(number) => match text_at(node, "createdAt"@) {
                None => Some("issue #"@ + signed_decimal(number) + " has no createdAt"@),
                Some(_) => None,
            },
        }
    }
}

fn parse_issue(node: &Json) -> (outcome: Result<IssueData, Error>)
    ensures
        match issue_refusal(*node) {
            Some(message) => outcome is Err && is_api(outcome->Err_0, message),
            None => outcome is Ok && is_issue(outcome->Ok_0, *node),
        },
{
    let id = match string_field(node, "id") {
        Some(text) => text,
        None => return Err(Error::GitHubApi(copy("issue id missing"))),
    };
    let number: i64 = match integer(node, "number") {
        Some(number) => number,
        None => return Err(Error::GitHubApi(copy("issue number missing"))),
    };
    let created_at = match string_field(node, "createdAt") {
        Some(text) => text,
        None => {
            let mut message = copy("issue #");
            push_signed(&mut message, number);
            message.append(" has no createdAt");
            return Err(Error::GitHubApi(message));
        },
    };
    let updated_at = string_or(node, "updatedAt", &created_at);
    proof {
        lemma_listed_empty::<LabelData>(with_id(), is_label());
        lemma_listed_empty::<ActorReference>(with_login(), is_assignee());
        lemma_listed_empty::<IssueCommentData>(with_id_and_date(), is_issue_comment());
    }
    let mut labels: Vec<LabelData> = Vec::new();
    add_labels(&mut labels, node, Ghost(Seq::empty()));
    let mut assignees: Vec<ActorReference> = Vec::new();
    add_assignees(&mut assignees, node, Ghost(Seq::empty()));
    let mut comments: Vec<IssueCommentData> = Vec::new();
    add_comments(&mut comments, node, Ghost(Seq::empty()));
    proof {
        assert(Seq::<Json>::empty() + nodes_at(*node, "labels"@) =~= nodes_at(*node, "labels"@));
        assert(Seq::<Json>::empty() + nodes_at(*node, "assignees"@) =~= nodes_at(
            *node,
            "assignees"@,
        ));
        assert(Seq::<Json>::empty() + nodes_at(*node, "comments"@) =~= nodes_at(
            *node,
            "comments"@,
        ));
    }
    let state = lower(&string_or(node, "state", "OPEN"));
    let state_reason = match string_field(node, "stateReason") {
        Some(reason) => Some(lower(&reason)),
        None => None,
    };
    Ok(
        IssueData {
            id,
            number,
            title: string_or_empty(node, "title"),
            body: string_field(node, "body"),
            state,
            state_reason,
            created_at,
            updated_at,
            closed_at: string_field(node, "closedAt"),
            author: actor(node, "author"),
            milestone: read_milestone(node),
            labels,
            assignees,
            comments,
        },
    )
}

/// The first `n` nodes are issues.
pub open spec fn issues_accepted(list: Seq<Json>, n: int) -> bool {
    forall|i: int| 0 <= i < n ==> issue_refusal(#[trigger] list[i]) is None
}

/// The items are the issues of the nodes.
pub open spec fn are_issues(items: Seq<IssueData>, list: Seq<Json>) -> bool {
    &&& items.len() == list.len()
    &&& forall|i: int| 0 <= i < items.len() ==> is_issue(#[trigger] items[i], list[i])
}

/// What parsing a page of issues yields.
pub open spec fn issue_page_parsed(outcome: Result<IssuePage, Error>, data: Json) -> bool {
    match solid_field(data, "repository"@) {
        None => outcome is Err && is_api(outcome->Err_0, "repository not found in response"@),
        Some(repository) => match field(repository, "issues"@) {
            None => outcome is Err && is_api(outcome->Err_0, "repository.issues missing"@),
            Some(connection) => {
                let list = nodes_at(repository, "issues"@);
                if issues_accepted(list, list.len() as int) {
                    &&& outcome is Ok
                    &&& are_issues(outcome->Ok_0.issues@, list)
                    &&& outcome->Ok_0.has_next_page == has_next(connection)
                    &&& opt_text(outcome->Ok_0.end_cursor) == next_cursor(connection)
                } else {
                    exists|n: int|
                        {
                            &&& 0 <= n < list.len()
                            &&& issues_accepted(list, n)
                            &&& issue_refusal(#[trigger] list[n]) matches Some(message) && outcome
                                is Err && is_api(outcome->Err_0, message)
                        }
                }
            },
        },
    }
}

/// Parse one page of the repository issues query response (`data` value).
pub fn parse_issue_page(data: &Json) -> (outcome: Result<IssuePage, Error>)
    ensures
        issue_page_parsed(outcome, *data),
{
    let repository = match get_solid(data, "repository") {
        Some(repository) => repository,
        None => return Err(Error::GitHubApi(copy("repository not found in response"))),
    };
    let connection = match get(repository, "issues") {
        Some(connection) => connection,
        None => return Err(Error::GitHubApi(copy("repository.issues missing"))),
    };
    let (has_next_page, end_cursor) = read_page_info(connection);
    let mut issues: Vec<IssueData> = Vec::new();
    if let Some(list) = nodes(repository, "issues") {
        let mut i: usize = 0;
        while i < list.len()
            invariant
                i <= list.len(),
                solid_field(*data, "repository"@) == Some(*repository),
                field(*repository, "issues"@) == Some(*connection),
                nodes_at(*repository, "issues"@) == list@,
                issues_accepted(list@, i as int),
                are_issues(issues@, list@.take(i as int)),
            decreases list.len() - i,
        {
            match parse_issue(&list[i]) {
                Ok(item) => {
                    let ghost before = issues@;
                    issues.push(item);
                    assert forall|k: int| 0 <= k < issues@.len() implies is_issue(
                        #[trigger] issues@[k],
                        list@.take(i + 1)[k],
                    ) by {
                        if k < i {
                            assert(is_issue(before[k], list@.take(i as int)[k]));
                        }
                    }
                },
                Err(error) => {
                    assert(!issues_accepted(list@, list@.len() as int));
                    return Err(error);
                },
            }
            i = i + 1;
        }
        assert(list@.take(list@.len() as int) =~= list@);
    }
    Ok(IssuePage { issues, has_next_page, end_cursor })
}

} // verus!
