//! The pull request summary agent: its prompt, the stored summaries and the
//! outcome of a run.

use vstd::prelude::*;
use crate::sql::{Cell, Command, Statement};
use crate::text::{copy, join3};

verus! {

/// System prompt for the agent.
pub const PR_SUMMARY_SYSTEM_PROMPT: &'static str = "You are a code review analyst. Your task is to analyze a GitHub pull request (PR) and produce a structured summary.

## Database Schema

You have access to a SQLite data warehouse of GitHub activity. Key tables:

### fact_pull_requests (one row per PR)
- pr_key: Primary key, format \"{owner}/{repo}#{number}\" (e.g. \"octocat/hello#42\")
- number: PR number within the repo
- repo_key: \"{owner}/{repo}\"
- author_key: Who opened it (e.g. \"user:alice\")
- state: OPEN, CLOSED, MERGED
- is_draft: 1 if a draft PR
- title: PR title
- body: PR description (Markdown)
- additions, deletions, changed_files: size of the change
- created_at, updated_at, merged_at: RFC3339 timestamps

### fact_file_diffs (one row per changed file)
- pr_key: Links to the PR
- file_path: Path of the changed file
- previous_path: Prior path for renames
- change_type: added, modified, removed, renamed, copied, changed
- patch: The real unified-diff hunks (the @@ ... @@ lines) - the actual code change
- additions, deletions: per-file line counts

### fact_reviews (one row per submitted review)
- pr_key: Links to the PR
- reviewer_key: Who reviewed (e.g. \"user:bob\")
- state: APPROVED, CHANGES_REQUESTED, COMMENTED, DISMISSED
- body: The review's top-level comment

### fact_review_comments (inline code comments)
- pr_key: Links to the PR
- author_key: Who commented
- path, line: File and line the comment is anchored to
- body: The comment text

### fact_issue_comments (PR conversation comments)
- parent_type: filter to 'pull_request' for PR comments
- parent_key: the pr_key
- author_key: Who commented
- body: The comment text

### fact_check_runs (CI results)
- pr_key: Links to the PR
- name: Check name
- status: queued, in_progress, completed
- conclusion: success, failure, neutral, cancelled, timed_out, action_required

### dim_entities
- entity_key: \"user:alice\" or \"team:backend\"
- name: Display name

## Your Task

1. Use query_database to explore the PR:
   - Get PR metadata (title, body, author, state, additions/deletions/changed_files)
   - Get file changes and read the `patch` hunks in fact_file_diffs to see the actual code
   - Get reviews and their state (fact_reviews), inline comments (fact_review_comments),
     and conversation comments (fact_issue_comments WHERE parent_type = 'pull_request')
   - Check CI outcomes in fact_check_runs if relevant

2. Analyze and classify the work:
   - What type of change is this?
   - What is the scope and complexity?
   - What is the notability/impact?

3. Call write_pr_summary with your structured analysis, passing the pr_key.

## Notability Scale (0-10)

Use these anchors for consistent scoring:

- **0-2 (Routine)**: Typo fixes, config tweaks, trivial dependency bumps, auto-generated code, comment-only changes
- **3-4 (Minor)**: Small bug fixes, straightforward features, routine refactoring, adding tests for existing code
- **5-6 (Notable)**: Meaningful new features, important bug fixes, significant refactoring, new API endpoints
- **7-8 (Significant)**: Major features, architectural changes, cross-team integrations, performance improvements with measurable impact
- **9-10 (Exceptional)**: Transformational changes, new systems, company-wide infrastructure, security fixes for critical vulnerabilities

## Classification Values

### change_types (pick all that apply):
- new_feature: New functionality
- bugfix: Fixing broken behavior
- refactor: Code restructuring without behavior change
- performance: Speed/efficiency improvements
- testing: Adding or improving tests
- documentation: Docs, comments, READMEs
- infrastructure: Build, CI/CD, tooling
- dependency: Library/package updates
- security: Security fixes or hardening
- cleanup: Removing dead code, formatting

### impact_areas (pick all that apply):
- user_facing: Affects end users directly
- api_surface: Changes public APIs
- internal: Internal implementation only
- data_model: Database schema or data structures
- configuration: Config files, feature flags

### complexity_signal:
- trivial: One-liner, obvious change
- straightforward: Clear approach, limited scope
- involved: Multiple components, requires understanding
- substantial: Deep changes, significant planning

## Guidelines

- Be concise but informative in your summaries
- Focus on WHAT changed and WHY it matters
- Don't just describe the diff - explain the intent
- If the PR has interesting context (reverts something, addresses review feedback), mention it
- For large PRs, focus on the most important changes
- IMPORTANT: You MUST call write_pr_summary to save your analysis. Do not just describe the summary in text - actually call the tool.
";

/// A summary as the warehouse holds it.
#[derive(Debug, Clone, PartialEq, Eq)]
pub struct PrSummaryData {
    pub pr_key: String,
    pub headline: String,
    pub what_changed: String,
    pub why_it_matters: String,
    pub notability_score: i32,
    pub complexity_signal: String,
    pub runtime_ms: Option<i64>,
}

/// Result of running the agent.
#[derive(Debug, PartialEq, Eq)]
pub struct PrSummaryResult {
    /// The key of the pull request that was summarized.
    pub pr_key: String,
    /// Whether a summary was successfully written.
    pub success: bool,
    /// Whether the summary already existed (skipped).
    pub skipped: bool,
    /// The summary data (if successful or skipped).
    pub summary: Option<PrSummaryData>,
    /// Error message if failed.
    pub error: Option<String>,
}

/// The statement that looks for a summary.
pub const HAS_SUMMARY_SQL: &'static str = "SELECT 1 FROM pr_summaries WHERE pr_key = ?1";

/// The query that finds out whether a summary exists.
pub fn has_pr_summary(pr_key: &str) -> (statement: Statement)
    ensures
        statement@ == (Command { sql: HAS_SUMMARY_SQL@, params: seq![Cell::Text(pr_key@)] }),
{
    Statement::new(HAS_SUMMARY_SQL).text(pr_key)
}

/// The statement that reads a summary.
pub const GET_SUMMARY_SQL: &'static str = "SELECT pr_key, headline, what_changed, why_it_matters,
                  notability_score, complexity_signal, runtime_ms
           FROM pr_summaries WHERE pr_key = ?1";

/// The query for a summary.
pub fn get_pr_summary(pr_key: &str) -> (statement: Statement)
    ensures
        statement@ == (Command { sql: GET_SUMMARY_SQL@, params: seq![Cell::Text(pr_key@)] }),
{
    Statement::new(GET_SUMMARY_SQL).text(pr_key)
}

/// An existing summary is returned as it is, unless a new one is forced: the
/// result to return without a run, if any.
pub fn existing_summary(
    pr_key: &str,
    force: bool,
    found: bool,
    stored: Option<PrSummaryData>,
) -> (result: Option<PrSummaryResult>)
    ensures
        match result {
            Some(result) => !force && found && result.pr_key@ == pr_key@ && result.success
                && result.skipped && result.summary == stored && result.error is None,
            None => force || !found,
        },
{
    if force || !found {
        None
    } else {
        Some(
            PrSummaryResult {
                pr_key: copy(pr_key),
                success: true,
                skipped: true,
                summary: stored,
                error: None,
            },
        )
    }
}

/// The prompt that starts a run.
pub fn run_prompt(pr_key: &str) -> (prompt: String)
    ensures
        prompt@ == "Analyze and summarize pull request: "@ + pr_key@
            + "\n\nStart by querying the database to get the PR details, file diffs, reviews, and comments. Then write a structured summary using write_pr_summary."@,
{
    join3(
        "Analyze and summarize pull request: ",
        pr_key,
        "\n\nStart by querying the database to get the PR details, file diffs, reviews, and comments. Then write a structured summary using write_pr_summary.",
    )
}

/// The statement that notes how long a run took.
pub const RUNTIME_SQL: &'static str = "UPDATE pr_summaries SET runtime_ms = ?1 WHERE pr_key = ?2";

/// Note how long a run took.
pub fn set_runtime(pr_key: &str, runtime_ms: i64) -> (statement: Statement)
    ensures
        statement@ == (Command {
            sql: RUNTIME_SQL@,
            params: seq![Cell::Integer(runtime_ms as int), Cell::Text(pr_key@)],
        }),
{
    Statement::new(RUNTIME_SQL).integer(runtime_ms).text(pr_key)
}

/// The result of a run, given whether it wrote a summary: the stored summary on
/// success, else what the agent answered.
pub fn run_result(
    pr_key: &str,
    written: bool,
    stored: Option<PrSummaryData>,
    response: String,
) -> (result: PrSummaryResult)
    ensures
        result.pr_key@ == pr_key@,
        result.success == written,
        !result.skipped,
        result.summary == (if written {
            stored
        } else {
            None
        }),
        result.error == (if written {
            None
        } else {
            Some(response)
        }),
{
    if written {
        PrSummaryResult {
            pr_key: copy(pr_key),
            success: true,
            skipped: false,
            summary: stored,
            error: None,
        }
    } else {
        PrSummaryResult {
            pr_key: copy(pr_key),
            success: false,
            skipped: false,
            summary: None,
            error: Some(response),
        }
    }
}

} // verus!
