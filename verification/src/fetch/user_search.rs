//! User-scoped pull-request fetching via GitHub's search API.
//!
//! The repository path walks `repository.pullRequests`, which is bounded by one
//! repo and paginates without limit. A user's work is not bounded that way:
//! their PRs and reviews are spread across every repository they touched,
//! including ones nobody monitors. Search is the only endpoint that answers
//! "everything by this person", so this module wraps it, with its two
//! constraints:
//!
//! * **1,000 results per query.** `search` stops paginating there no matter how
//!   many matches `issueCount` reports. The caller partitions by `created:` date
//!   window and splits any window that reports more, so no result set is
//!   silently truncated at the cap.
//! * **A separate, much smaller budget.** Search is 30 requests/minute for an
//!   authenticated user, so it is paced on its own clock.
//!
//! Every node is parsed by the same parser that is used for repository pages,
//! so a PR ingested through either path lands identically in the warehouse.

use vstd::prelude::*;
use crate::error::{is_api, Error};
use crate::fetch::pull_requests::{
    has_next, is_metadata, is_pull_request, next_cursor, node_refusal, parse_pull_request_node,
    parse_repository_metadata, read_page_info, PullRequestData, RepositoryMetadata,
};
use crate::json::{
    elements, elements_at, field, get, get_solid, integer, integer_at, solid_field, text_at, Json,
};
use crate::number::{decimal, push_decimal};
use crate::text::{copy, join4, opt_text};

verus! {

/// GitHub's hard ceiling on results per search query, regardless of match count.
pub const SEARCH_RESULT_CAP: i64 = 1000;

/// Which side of a pull request a monitored user is being matched on.
#[derive(Debug, Clone, Copy, PartialEq, Eq, Structural)]
pub enum UserRole {
    /// PRs the user opened (`author:`).
    Author,
    /// PRs the user reviewed (`reviewed-by:`).
    Reviewer,
}

/// The search qualifier of a role.
pub open spec fn qualifier_of(role: UserRole) -> Seq<char> {
    match role {
        UserRole::Author => "author"@,
        UserRole::Reviewer => "reviewed-by"@,
    }
}

/// The source type under which a role keeps its cursor.
pub open spec fn cursor_source_of(role: UserRole) -> Seq<char> {
    match role {
        UserRole::Author => "user"@,
        UserRole::Reviewer => "user_reviews"@,
    }
}

impl UserRole {
    /// The GitHub search qualifier for this role.
    pub fn qualifier(self) -> (text: &'static str)
        ensures
            text@ == qualifier_of(self),
    {
        match self {
            UserRole::Author => "author",
            UserRole::Reviewer => "reviewed-by",
        }
    }

    /// The `sync_metadata.source_type` this role's cursor is stored under.
    ///
    /// The two roles walk disjoint result sets, so folding them into one
    /// watermark would let the faster-moving side advance the cursor past
    /// unfetched items on the slower one.
    pub fn cursor_source_type(self) -> (text: &'static str)
        ensures
            text@ == cursor_source_of(self),
    {
        match self {
            UserRole::Author => "user",
            UserRole::Reviewer => "user_reviews",
        }
    }

    /// Every role a user sync covers.
    pub fn all() -> (roles: [UserRole; 2])
        ensures
            roles@ == seq![UserRole::Author, UserRole::Reviewer],
    {
        let roles = [UserRole::Author, UserRole::Reviewer];
        assert(roles@ =~= seq![UserRole::Author, UserRole::Reviewer]);
        roles
    }
}

/// Two roles never share a cursor, so neither can move the other's watermark.
pub proof fn law_roles_keep_separate_cursors(left: UserRole, right: UserRole)
    requires
        left != right,
    ensures
        cursor_source_of(left) != cursor_source_of(right),
        qualifier_of(left) != qualifier_of(right),
{
    reveal_strlit("user");
    reveal_strlit("user_reviews");
    reveal_strlit("author");
    reveal_strlit("reviewed-by");
    assert("user"@.len() != "user_reviews"@.len());
    assert("author"@.len() != "reviewed-by"@.len());
}

/// The search expression for a user, a role and a window of creation dates.
pub open spec fn search_expression(
    login: Seq<char>,
    role: UserRole,
    window: Option<(Seq<char>, Seq<char>)>,
) -> Seq<char> {
    let subject = "is:pr "@ + qualifier_of(role) + ":"@ + login;
    match window {
        Some((start, end)) => subject + " created:"@ + start + ".."@ + end + " sort:updated-desc"@,
        None => subject + " sort:updated-desc"@,
    }
}

/// The views of a window.
pub open spec fn window_view(window: Option<(&str, &str)>) -> Option<(Seq<char>, Seq<char>)> {
    match window {
        Some((start, end)) => Some((start@, end@)),
        None => None,
    }
}

/// Build the search query string for one user, role, and optional created-date
/// window.
///
/// `sort:updated-desc` makes the walk newest-first, which is what lets the
/// incremental cursor stop the page loop the same way the repository path does.
pub fn user_search_expression(login: &str, role: UserRole, window: Option<(&str, &str)>) -> (
    expression: String)
    ensures
        expression@ == search_expression(login@, role, window_view(window)),
{
    let mut expression = join4("is:pr ", role.qualifier(), ":", login);
    if let Some((start, end)) = window {
        expression.append(" created:");
        expression.append(start);
        expression.append("..");
        expression.append(end);
    }
    expression.append(" sort:updated-desc");
    expression
}

/// The user search query up to its page size.
pub const SEARCH_QUERY_HEAD: &'static str = "
query($q: String!, $cursor: String) {
  rateLimit { limit cost remaining resetAt }
  search(query: $q, type: ISSUE, first: ";

/// The user search query behind its page size.
pub const SEARCH_QUERY_TAIL: &'static str = ", after: $cursor) {
    issueCount
    pageInfo { hasNextPage endCursor }
    nodes {
      ... on PullRequest {
        number title body state isDraft
        createdAt updatedAt mergedAt closedAt
        baseRefName headRefName
        additions deletions changedFiles
        author { login __typename }
        mergedBy { login __typename }
        repository {
          nameWithOwner
          primaryLanguage { name }
          isFork
          isPrivate
          defaultBranchRef { name }
          createdAt
        }
        reviews(first: 50) {
          nodes {
            id state body submittedAt
            author { login __typename }
          }
        }
        reviewThreads(first: 50) {
          nodes {
            comments(first: 50) {
              nodes {
                id body path line createdAt
                author { login __typename }
                replyTo { id }
              }
            }
          }
        }
        comments(first: 50) {
          nodes {
            id body createdAt
            author { login __typename }
          }
        }
        files(first: 100) {
          nodes { path changeType additions deletions }
        }
        commits(last: 1) {
          nodes {
            commit {
              oid
              checkSuites(first: 10) {
                nodes {
                  checkRuns(first: 20) {
                    nodes { id name status conclusion startedAt completedAt }
                  }
                }
              }
            }
          }
        }
      }
    }
  }
}
";

/// GraphQL search query. The node selection mirrors the repository query's PR
/// node so both paths feed the same parser, with `repository` added because a
/// search page spans repositories.
pub fn user_pull_requests_query(page_size: u32) -> (query: String)
    ensures
        query@ == SEARCH_QUERY_HEAD@ + decimal(page_size as nat) + SEARCH_QUERY_TAIL@,
{
    let mut query = copy(SEARCH_QUERY_HEAD);
    push_decimal(&mut query, page_size as u64);
    query.append(SEARCH_QUERY_TAIL);
    query
}

/// One pull request from a search page, with the repository it lives in.
#[derive(Debug, Clone)]
pub struct SearchedPullRequest {
    pub repository: RepositoryMetadata,
    pub pull_request: PullRequestData,
}

/// One page of search results.
#[derive(Debug)]
pub struct UserSearchPage {
    /// Total matches GitHub reports for the query. It may exceed
    /// [`SEARCH_RESULT_CAP`], which is exactly the case the caller must split.
    pub total_count: i64,
    pub items: Vec<SearchedPullRequest>,
    pub has_next_page: bool,
    pub end_cursor: Option<String>,
}

impl UserSearchPage {
    /// True when GitHub reports more matches than it will ever serve, so
    /// paginating this query to exhaustion still leaves results behind.
    pub fn exceeds_result_cap(&self) -> (yes: bool)
        ensures
            yes == (self.total_count > SEARCH_RESULT_CAP),
    {
        self.total_count > SEARCH_RESULT_CAP
    }
}

/// The node has a pull request's number. Nodes without one are other kinds of
/// search results and are passed over.
pub open spec fn is_numbered(node: Json) -> bool {
    field(node, "number"@) is Some
}

/// Why a numbered node is no search result, if it is none.
pub open spec fn item_refusal(node: Json) -> Option<Seq<char>> {
    match solid_field(node, "repository"@) {
        None => Some("search node has no repository"@),
        Some(repository) => if text_at(repository, "nameWithOwner"@) is None {
            Some("repository.nameWithOwner missing"@)
        } else {
            node_refusal(node)
        },
    }
}

/// The item is what its node says.
pub open spec fn is_item(item: SearchedPullRequest, node: Json) -> bool {
    &&& solid_field(node, "repository"@) matches Some(repository) && is_metadata(
        item.repository,
        repository,
    )
    &&& is_pull_request(item.pull_request, node)
}

/// The numbered nodes among the first `n`.
pub open spec fn numbered(list: Seq<Json>, n: int) -> Seq<Json>
    decreases n,
{
    if n <= 0 {
        Seq::empty()
    } else if is_numbered(list[n - 1]) {
        numbered(list, n - 1).push(list[n - 1])
    } else {
        numbered(list, n - 1)
    }
}

/// The first `n` nodes are search results or are passed over.
pub open spec fn items_accepted(list: Seq<Json>, n: int) -> bool {
    forall|i: int|
        0 <= i < n && is_numbered(list[i]) ==> item_refusal(#[trigger] list[i]) is None
}

/// The items are those of the nodes.
pub open spec fn are_items(items: Seq<SearchedPullRequest>, list: Seq<Json>) -> bool {
    &&& items.len() == list.len()
    &&& forall|i: int| 0 <= i < items.len() ==> is_item(#[trigger] items[i], list[i])
}

fn parse_item(node: &Json) -> (outcome: Result<SearchedPullRequest, Error>)
    ensures
        match item_refusal(*node) {
            Some(message) => outcome is Err && is_api(outcome->Err_0, message),
            None => outcome is Ok && is_item(outcome->Ok_0, *node),
        },
{
    let repository = match get_solid(node, "repository") {
        Some(repository) => repository,
        None => return Err(Error::GitHubApi(copy("search node has no repository"))),
    };
    let metadata = match parse_repository_metadata(repository) {
        Ok(metadata) => metadata,
        Err(error) => return Err(error),
    };
    match parse_pull_request_node(node) {
        Ok(pull_request) => Ok(SearchedPullRequest { repository: metadata, pull_request }),
        Err(error) => Err(error),
    }
}

/// What parsing a page of search results yields.
pub open spec fn search_page_parsed(outcome: Result<UserSearchPage, Error>, data: Json) -> bool {
    match solid_field(data, "search"@) {
        None => outcome is Err && is_api(outcome->Err_0, "search block missing from response"@),
        Some(search) => match integer_at(search, "issueCount"@) {
            None => outcome is Err && is_api(outcome->Err_0, "search.issueCount missing"@),
            Some(total) => {
                let list = elements_at(search, "nodes"@);
                if items_accepted(list, list.len() as int) {
                    &&& outcome is Ok
                    &&& outcome->Ok_0.total_count == total
                    &&& are_items(outcome->Ok_0.items@, numbered(list, list.len() as int))
                    &&& outcome->Ok_0.has_next_page == has_next(search)
                    &&& opt_text(outcome->Ok_0.end_cursor) == next_cursor(search)
                } else {
                    exists|n: int|
                        {
                            &&& 0 <= n < list.len()
                            &&& items_accepted(list, n)
                            &&& is_numbered(list[n])
                            &&& item_refusal(#[trigger] list[n]) matches Some(message) && outcome
                                is Err && is_api(outcome->Err_0, message)
                        }
                }
            },
        },
    }
}

/// Parse one page of the user search response (the `data` value).
pub fn parse_user_search_page(data: &Json) -> (outcome: Result<UserSearchPage, Error>)
    ensures
        search_page_parsed(outcome, *data),
{
    let search = match get_solid(data, "search") {
        Some(search) => search,
        None => return Err(Error::GitHubApi(copy("search block missing from response"))),
    };
    let total_count: i64 = match integer(search, "issueCount") {
        Some(total) => total,
        None => return Err(Error::GitHubApi(copy("search.issueCount missing"))),
    };
    let (has_next_page, end_cursor) = read_page_info(search);
    let mut items: Vec<SearchedPullRequest> = Vec::new();
    if let Some(list) = elements(search, "nodes") {
        let mut i: usize = 0;
        while i < list.len()
            invariant
                i <= list.len(),
                solid_field(*data, "search"@) == Some(*search),
                integer_at(*search, "issueCount"@) == Some(total_count as int),
                elements_at(*search, "nodes"@) == list@,
                items_accepted(list@, i as int),
                are_items(items@, numbered(list@, i as int)),
            decreases list.len() - i,
        {
            let node = &list[i];
            if get(node, "number").is_some() {
                match parse_item(node) {
                    Ok(item) => {
                        let ghost before = items@;
                        items.push(item);
                        assert forall|k: int| 0 <= k < items@.len() implies is_item(
                            #[trigger] items@[k],
                            numbered(list@, i + 1)[k],
                        ) by {
                            if k < before.len() {
                                assert(is_item(before[k], numbered(list@, i as int)[k]));
                            }
                        }
                    },
                    Err(error) => {
                        assert(!items_accepted(list@, list@.len() as int));
                        return Err(error);
                    },
                }
            }
            i = i + 1;
        }
    }
    Ok(UserSearchPage { total_count, items, has_next_page, end_cursor })
}

/// A search asks for the pull requests that the user opened or reviewed, created
/// in the window where there is one, the most recently updated first.
pub proof fn law_a_search_asks_for_the_work_of_a_user(
    login: Seq<char>,
    start: Seq<char>,
    end: Seq<char>,
)
    ensures
        search_expression(login, UserRole::Author, None) == "is:pr author:"@ + login
            + " sort:updated-desc"@,
        search_expression(login, UserRole::Reviewer, None) == "is:pr reviewed-by:"@ + login
            + " sort:updated-desc"@,
        search_expression(login, UserRole::Author, Some((start, end))) == "is:pr author:"@ + login
            + " created:"@ + start + ".."@ + end + " sort:updated-desc"@,
        search_expression(login, UserRole::Reviewer, Some((start, end)))
            == "is:pr reviewed-by:"@ + login + " created:"@ + start + ".."@ + end
            + " sort:updated-desc"@,
{
    reveal_strlit("is:pr ");
    reveal_strlit("author");
    reveal_strlit("reviewed-by");
    reveal_strlit(":");
    reveal_strlit("is:pr author:");
    reveal_strlit("is:pr reviewed-by:");
    assert("is:pr "@ + "author"@ + ":"@ =~= "is:pr author:"@);
    assert("is:pr "@ + "reviewed-by"@ + ":"@ =~= "is:pr reviewed-by:"@);
}

} // verus!
