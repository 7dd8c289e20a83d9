use std::collections::VecDeque;

use githubdw::clock::Instant;
use githubdw::error::Error;
use githubdw::fetch::issues::parse_issue_page;
use githubdw::fetch::pull_requests::{
    parse_pull_request_node, parse_pull_request_page, parse_rest_file_patches,
    repository_pull_requests_query,
};
use githubdw::fetch::rate_limit::{Pause, RateLimitTracker};
use githubdw::fetch::user_search::{
    parse_user_search_page, user_pull_requests_query, user_search_expression, UserRole,
};
use githubdw::fetch::{
    after_failure, graphql_arguments, is_retryable, next_retry, preflight_arguments,
    preflight_failure, rest_arguments, GhClient,
};
use githubdw::json::{flag_field, Json};

fn convert(value: &serde_json::Value) -> Json {
    match value {
        serde_json::Value::Null => Json::Null,
        serde_json::Value::Bool(flag) => Json::Bool(*flag),
        serde_json::Value::Number(number) => Json::Number(number.as_i64()),
        serde_json::Value::String(text) => Json::Text(text.clone()),
        serde_json::Value::Array(items) => Json::Array(items.iter().map(convert).collect()),
        serde_json::Value::Object(members) => Json::Object(
            members
                .iter()
                .map(|(name, member)| (name.clone(), convert(member)))
                .collect(),
        ),
    }
}

fn json(text: &str) -> Json {
    convert(&serde_json::from_str(text).expect("JSON"))
}

/// A transport that replays queued responses and records invocations.
struct Fixture {
    responses: VecDeque<Result<String, Error>>,
    calls: Vec<Vec<String>>,
}

impl Fixture {
    fn new(responses: Vec<Result<String, Error>>) -> Fixture {
        Fixture { responses: responses.into_iter().collect(), calls: Vec::new() }
    }

    fn run(&mut self, arguments: &[String]) -> Result<String, Error> {
        self.calls.push(arguments.to_vec());
        match self.responses.pop_front() {
            Some(response) => response,
            None => Err(Error::GitHubApi("no more fixture responses".to_string())),
        }
    }
}

/// Run a query as the client does: retry while a failure is worth it.
fn graphql(client: &mut GhClient, transport: &mut Fixture, query: &str) -> Result<bool, Error> {
    let arguments = graphql_arguments(query, &vec![]);
    let mut failures: u32 = 0;
    let stdout = loop {
        match transport.run(&arguments) {
            Ok(stdout) => break stdout,
            Err(error) => {
                failures += 1;
                if after_failure(failures, &error).is_none() {
                    return Err(error);
                }
            }
        }
    };
    let response = json(&stdout);
    let data = client.accept(&response)?;
    Ok(flag_field(data, "ok"))
}

fn at(text: &str) -> Instant {
    Instant::parse(text).unwrap()
}

const NOW: &str = "2026-08-16T12:00:00Z";

#[test]
fn graphql_extracts_data_and_surfaces_errors() {
    let mut transport = Fixture::new(vec![
        Ok(r#"{"data": {"ok": true, "rateLimit": {"limit": 5000, "cost": 1, "remaining": 4999, "resetAt": "2099-01-01T00:00:00Z"}}}"#.to_string()),
        Ok(r#"{"data": null, "errors": [{"message": "Could not resolve"}]}"#.to_string()),
    ]);
    let mut client = GhClient::new().without_sleeping();
    assert!(graphql(&mut client, &mut transport, "query {}").expect("first call ok"));
    let error = graphql(&mut client, &mut transport, "query {}").unwrap_err();
    assert!(matches!(error, Error::GitHubApi(_)));
}

#[test]
fn retries_on_secondary_rate_limit_then_succeeds() {
    let mut transport = Fixture::new(vec![
        Err(Error::GhCommand {
            exit_code: Some(1),
            stderr: "HTTP 403: You have exceeded a secondary rate limit".to_string(),
        }),
        Ok(r#"{"data": {"ok": true}}"#.to_string()),
    ]);
    let mut client = GhClient::new().without_sleeping();
    assert!(graphql(&mut client, &mut transport, "query {}").expect("retried call ok"));
    assert_eq!(transport.calls.len(), 2);
}

#[test]
fn does_not_retry_fatal_errors() {
    let mut transport = Fixture::new(vec![
        Err(Error::GhCommand { exit_code: Some(1), stderr: "HTTP 404: Not Found".to_string() }),
        Ok(r#"{"data": {"ok": true}}"#.to_string()),
    ]);
    let mut client = GhClient::new().without_sleeping();
    assert!(graphql(&mut client, &mut transport, "query {}").is_err());
}

#[test]
fn retries_back_off_and_end() {
    let waits: Vec<Option<u64>> = (1..=8).map(|failures| next_retry(failures, true)).collect();
    assert_eq!(
        waits,
        vec![Some(2), Some(4), Some(8), Some(16), Some(32), Some(64), None, None]
    );
    assert_eq!(next_retry(1, false), None);
}

#[test]
fn only_throttles_and_hiccups_are_retried() {
    for stderr in [
        "API rate limit exceeded",
        "HTTP 429",
        "HTTP 502: Bad Gateway",
        "i/o Timeout",
        "Connection reset by peer",
    ] {
        assert!(
            is_retryable(&Error::GhCommand { exit_code: None, stderr: stderr.to_string() }),
            "{stderr}"
        );
    }
    assert!(!is_retryable(&Error::GhCommand { exit_code: None, stderr: "HTTP 404".to_string() }));
    assert!(!is_retryable(&Error::GitHubApi("rate limit".to_string())));
}

#[test]
fn arguments_are_those_of_the_command_line() {
    assert_eq!(
        graphql_arguments("{ viewer }", &vec![("owner".to_string(), "octo".to_string())]),
        vec!["api", "graphql", "-f", "query={ viewer }", "-F", "owner=octo"]
    );
    assert_eq!(rest_arguments("repos/a/b"), vec!["api", "repos/a/b"]);
    assert_eq!(preflight_arguments(), vec!["auth", "status"]);
    let failure = preflight_failure(&Error::GhUnavailable("no such file".to_string()));
    assert!(matches!(&failure, Error::GhUnavailable(detail)
        if detail.starts_with("`gh auth status` failed") && detail.ends_with("no such file")));
}

#[test]
fn responses_without_data_are_refused() {
    let mut client = GhClient::new();
    assert_eq!(
        client.accept(&json("{}")).unwrap_err(),
        Error::GitHubApi("response has no data field".to_string())
    );
    assert_eq!(
        client
            .accept(&json(r#"{"errors": [{"message": "a"}, {}, {"message": "c"}]}"#))
            .unwrap_err(),
        Error::GitHubApi("a; unknown GraphQL error; c".to_string())
    );
}

#[test]
fn pauses_come_in_their_order() {
    let now = at(NOW);
    let delay = Pause { seconds: 1, nanos: 500 };
    let mut client = GhClient::new().with_inter_request_delay(delay);
    client.rate_limit.observe(&json(
        r#"{"limit": 5000, "cost": 10, "remaining": 5, "resetAt": "2026-08-16T12:00:10Z"}"#,
    ));
    let pauses = client.pauses_before(&now);
    assert_eq!(pauses.len(), 2);
    assert_eq!((pauses[0].seconds, pauses[0].nanos), (1, 500));
    assert!(pauses[1].seconds >= 10);
    assert!(GhClient::new().without_sleeping().pauses_before(&now).is_empty());
}

#[test]
fn no_wait_when_budget_is_healthy() {
    let mut tracker = RateLimitTracker::new();
    tracker.observe(&json(
        r#"{"limit": 5000, "cost": 1, "remaining": 4900, "resetAt": "2099-01-01T00:00:00Z"}"#,
    ));
    assert!(tracker.wait_needed(&at(NOW)).is_none());
}

#[test]
fn waits_when_remaining_below_floor() {
    let mut tracker = RateLimitTracker::new();
    tracker.observe(&json(
        r#"{"limit": 5000, "cost": 10, "remaining": 5, "resetAt": "2099-01-01T00:00:00Z"}"#,
    ));
    assert!(tracker.wait_needed(&at(NOW)).is_some());
}

#[test]
fn no_wait_when_reset_is_in_the_past() {
    let mut tracker = RateLimitTracker::new();
    tracker.observe(&json(
        r#"{"limit": 5000, "cost": 10, "remaining": 0, "resetAt": "2000-01-01T00:00:00Z"}"#,
    ));
    assert!(tracker.wait_needed(&at(NOW)).is_none());
}

const ISSUE_PAGE: &str = r#"{
            "repository": {
                "nameWithOwner": "octocat/hello",
                "issues": {
                    "pageInfo": {"hasNextPage": false, "endCursor": null},
                    "nodes": [{
                        "id": "ISS1",
                        "number": 42,
                        "title": "Pagination bug",
                        "body": "List cuts off at page two",
                        "state": "CLOSED",
                        "stateReason": "COMPLETED",
                        "createdAt": "2026-02-01T12:00:00Z",
                        "updatedAt": "2026-02-03T12:00:00Z",
                        "closedAt": "2026-02-03T12:00:00Z",
                        "author": {"login": "octocat", "__typename": "User"},
                        "milestone": {
                            "id": "MILE1", "number": 1, "title": "v1.0",
                            "description": null, "state": "OPEN",
                            "dueOn": null, "createdAt": "2026-01-01T00:00:00Z"
                        },
                        "labels": {"nodes": [{
                            "id": "LAB1", "name": "bug", "color": "d73a4a", "description": "Something broken"
                        }]},
                        "assignees": {"nodes": [{"login": "hubot", "__typename": "User"}]},
                        "comments": {"nodes": [{
                            "id": "COM1", "body": "Reproduced",
                            "createdAt": "2026-02-02T08:00:00Z",
                            "author": {"login": "hubot", "__typename": "User"}
                        }]}
                    }]
                }
            }
        }"#;

#[test]
fn parses_issue_page() {
    let page = parse_issue_page(&json(ISSUE_PAGE)).expect("parse issues");
    assert_eq!(page.issues.len(), 1);
    assert!(!page.has_next_page);
    let issue = &page.issues[0];
    assert_eq!(issue.number, 42);
    assert_eq!(issue.state, "closed");
    assert_eq!(issue.state_reason.as_deref(), Some("completed"));
    assert_eq!(issue.labels.len(), 1);
    assert_eq!(issue.labels[0].name, "bug");
    assert_eq!(issue.assignees.len(), 1);
    assert_eq!(issue.comments.len(), 1);
    assert_eq!(issue.milestone.as_ref().unwrap().title, "v1.0");
}

const PULL_REQUEST_PAGE: &str = r#"{
            "repository": {
                "nameWithOwner": "octocat/hello",
                "primaryLanguage": {"name": "Rust"},
                "isFork": false,
                "isPrivate": false,
                "defaultBranchRef": {"name": "main"},
                "createdAt": "2020-01-01T00:00:00Z",
                "pullRequests": {
                    "pageInfo": {"hasNextPage": true, "endCursor": "CURSOR1"},
                    "nodes": [{
                        "number": 7,
                        "title": "Add rate limiter",
                        "body": "Implements client-side pacing",
                        "state": "MERGED",
                        "isDraft": false,
                        "createdAt": "2026-01-05T18:00:00Z",
                        "updatedAt": "2026-01-06T09:00:00Z",
                        "mergedAt": "2026-01-06T09:00:00Z",
                        "closedAt": "2026-01-06T09:00:00Z",
                        "baseRefName": "main",
                        "headRefName": "feature/rate-limit",
                        "additions": 120,
                        "deletions": 4,
                        "changedFiles": 3,
                        "author": {"login": "octocat", "__typename": "User"},
                        "mergedBy": {"login": "hubot", "__typename": "User"},
                        "reviews": {"nodes": [{
                            "id": "REV1", "state": "APPROVED", "body": "Looks good",
                            "submittedAt": "2026-01-06T08:00:00Z",
                            "author": {"login": "hubot", "__typename": "User"}
                        }]},
                        "reviewThreads": {"nodes": [{
                            "comments": {"nodes": [{
                                "id": "RC1", "body": "nit: rename",
                                "path": "src/lib.rs", "line": 10,
                                "createdAt": "2026-01-05T20:00:00Z",
                                "author": {"login": "hubot", "__typename": "User"},
                                "replyTo": null
                            }]}
                        }]},
                        "comments": {"nodes": [{
                            "id": "IC1", "body": "Looks good overall",
                            "createdAt": "2026-01-05T19:00:00Z",
                            "author": {"login": "dependabot[bot]", "__typename": "Bot"}
                        }]},
                        "files": {"nodes": [{
                            "path": "src/lib.rs", "changeType": "MODIFIED",
                            "additions": 100, "deletions": 2
                        }]},
                        "commits": {"nodes": [{
                            "commit": {
                                "oid": "abc123",
                                "checkSuites": {"nodes": [{
                                    "checkRuns": {"nodes": [{
                                        "id": "CHK1", "name": "build",
                                        "status": "COMPLETED", "conclusion": "SUCCESS",
                                        "startedAt": "2026-01-05T18:05:00Z",
                                        "completedAt": "2026-01-05T18:10:00Z"
                                    }]}
                                }]}
                            }
                        }]}
                    }]
                }
            }
        }"#;

#[test]
fn parses_full_page() {
    let page = parse_pull_request_page(&json(PULL_REQUEST_PAGE)).expect("parse page");
    assert_eq!(page.repository.name_with_owner, "octocat/hello");
    assert_eq!(page.repository.primary_language.as_deref(), Some("Rust"));
    assert!(page.has_next_page);
    assert_eq!(page.end_cursor.as_deref(), Some("CURSOR1"));
    assert_eq!(page.pull_requests.len(), 1);

    let pull_request = &page.pull_requests[0];
    assert_eq!(pull_request.number, 7);
    assert_eq!(pull_request.state, "MERGED");
    assert_eq!(pull_request.author.as_ref().unwrap().login, "octocat");
    assert_eq!(pull_request.reviews.len(), 1);
    assert_eq!(pull_request.reviews[0].state, "APPROVED");
    assert_eq!(pull_request.review_comments.len(), 1);
    assert_eq!(pull_request.review_comments[0].path.as_deref(), Some("src/lib.rs"));
    assert_eq!(pull_request.conversation_comments.len(), 1);
    assert_eq!(
        pull_request.conversation_comments[0].author.as_ref().unwrap().actor_type,
        "Bot"
    );
    assert_eq!(pull_request.files.len(), 1);
    assert_eq!(pull_request.head_sha.as_deref(), Some("abc123"));
    assert_eq!(pull_request.check_runs.len(), 1);
    assert_eq!(pull_request.check_runs[0].conclusion.as_deref(), Some("SUCCESS"));
}

#[test]
fn parses_rest_file_patches() {
    let value = json(
        r#"[
            {"filename": "src/lib.rs", "patch": "@@ -1 +1 @@"},
            {"filename": "renamed.rs", "previous_filename": "old.rs", "patch": null}
        ]"#,
    );
    let patches = parse_rest_file_patches(&value);
    assert_eq!(patches.len(), 2);
    assert_eq!(patches[0].0, "src/lib.rs");
    assert_eq!(patches[0].2.as_deref(), Some("@@ -1 +1 @@"));
    assert_eq!(patches[1].1.as_deref(), Some("old.rs"));
}

#[test]
fn pages_without_their_parts_are_refused() {
    assert!(matches!(parse_pull_request_page(&json("{}")), Err(Error::GitHubApi(_))));
    assert!(matches!(parse_issue_page(&json("{}")), Err(Error::GitHubApi(_))));
    assert!(matches!(parse_user_search_page(&json("{}")), Err(Error::GitHubApi(_))));
    assert!(parse_pull_request_node(&json(r#"{"title": "no number"}"#)).is_err());
}

fn search_response(total: i64, numbers: &[i64], extra: &str) -> Json {
    let mut nodes: Vec<String> = numbers
        .iter()
        .map(|number| {
            format!(
                r#"{{
                    "number": {number}, "title": "PR {number}", "body": "body",
                    "state": "MERGED", "isDraft": false,
                    "createdAt": "2026-01-05T18:00:00Z", "updatedAt": "2026-01-06T09:00:00Z",
                    "mergedAt": "2026-01-06T09:00:00Z", "closedAt": "2026-01-06T09:00:00Z",
                    "baseRefName": "main", "headRefName": "feature",
                    "additions": 1, "deletions": 0, "changedFiles": 1,
                    "author": {{"login": "octocat", "__typename": "User"}},
                    "mergedBy": null,
                    "repository": {{
                        "nameWithOwner": "acme/widgets",
                        "primaryLanguage": {{"name": "Rust"}},
                        "isFork": false, "isPrivate": true,
                        "defaultBranchRef": {{"name": "main"}},
                        "createdAt": "2020-01-01T00:00:00Z"
                    }},
                    "reviews": {{"nodes": []}}, "reviewThreads": {{"nodes": []}},
                    "comments": {{"nodes": []}}, "files": {{"nodes": []}},
                    "commits": {{"nodes": []}}
                }}"#
            )
        })
        .collect();
    if !extra.is_empty() {
        nodes.push(extra.to_string());
    }
    json(&format!(
        r#"{{"search": {{"issueCount": {total},
            "pageInfo": {{"hasNextPage": false, "endCursor": null}},
            "nodes": [{}]}}}}"#,
        nodes.join(",")
    ))
}

#[test]
fn builds_expressions_for_both_roles() {
    assert_eq!(
        user_search_expression("octocat", UserRole::Author, None),
        "is:pr author:octocat sort:updated-desc"
    );
    assert_eq!(
        user_search_expression(
            "octocat",
            UserRole::Reviewer,
            Some(("2026-01-01", "2026-01-31"))
        ),
        "is:pr reviewed-by:octocat created:2026-01-01..2026-01-31 sort:updated-desc"
    );
}

#[test]
fn roles_keep_separate_cursors() {
    assert_eq!(UserRole::Author.cursor_source_type(), "user");
    assert_eq!(UserRole::Reviewer.cursor_source_type(), "user_reviews");
}

#[test]
fn parses_page_with_per_node_repository() {
    let page = parse_user_search_page(&search_response(2, &[7, 8], "")).unwrap();
    assert_eq!(page.total_count, 2);
    assert_eq!(page.items.len(), 2);
    assert_eq!(page.items[0].repository.name_with_owner, "acme/widgets");
    assert!(page.items[0].repository.is_private);
    assert_eq!(page.items[0].pull_request.number, 7);
    assert!(!page.exceeds_result_cap());
}

#[test]
fn reports_when_matches_exceed_the_cap() {
    let page = parse_user_search_page(&search_response(4200, &[1], "")).unwrap();
    assert!(page.exceeds_result_cap());
}

#[test]
fn skips_non_pull_request_nodes() {
    let page = parse_user_search_page(&search_response(1, &[7], "{}")).unwrap();
    assert_eq!(page.items.len(), 1);
}

#[test]
fn queries_carry_their_page_size() {
    assert!(repository_pull_requests_query(25).contains("pullRequests(first: 25, after: $cursor"));
    assert!(user_pull_requests_query(12).contains("first: 12"));
    assert!(!repository_pull_requests_query(25).contains("{PAGE_SIZE}"));
    assert_eq!(
        repository_pull_requests_query(25).replacen("first: 25", "first: 3", 1),
        repository_pull_requests_query(3)
    );
}
