//! Parameter structs for the MCP tools.

use vstd::prelude::*;

verus! {

/// Parameters for `query_pull_requests`.
#[derive(Debug, Clone, PartialEq, Eq)]
pub struct QueryParams {
    /// Filter by PR author login (e.g. "alice").
    pub author: Option<String>,
    /// Filter by the login of somebody who reviewed.
    pub reviewer: Option<String>,
    /// Filter by repository ("owner/name").
    pub repo: Option<String>,
    /// Filter by repository owner/org.
    pub org: Option<String>,
    /// Filter by user-group or repo-group name (expands to members).
    pub group: Option<String>,
    /// Filter by label name.
    pub label: Option<String>,
    /// PR state: "open", "merged", or "closed".
    pub state: Option<String>,
    /// Period filter (e.g. "2026-Q1", "2026-01", "2025-H2", "last-30").
    pub period: Option<String>,
    /// Max rows to return. Default: 50.
    pub limit: Option<u32>,
    /// Rows to skip (pagination).
    pub offset: Option<u32>,
    /// Output: "pull_requests" (default), "count", "count_by_author",
    /// "count_by_repo", "count_by_state", "count_by_period".
    pub output: Option<String>,
}

impl Default for QueryParams {
    fn default() -> (params: QueryParams)
        ensures
            params == (QueryParams {
                author: None,
                reviewer: None,
                repo: None,
                org: None,
                group: None,
                label: None,
                state: None,
                period: None,
                limit: None,
                offset: None,
                output: None,
            }),
    {
        QueryParams {
            author: None,
            reviewer: None,
            repo: None,
            org: None,
            group: None,
            label: None,
            state: None,
            period: None,
            limit: None,
            offset: None,
            output: None,
        }
    }
}

/// Parameters for `get_metrics`.
#[derive(Debug, Clone, PartialEq, Eq)]
pub struct MetricsParams {
    /// Entity type: "user", "repo", "user_group", or "repo_group".
    pub entity_type: String,
    /// Entity name (login, "owner/name", or group name).
    pub name: String,
    /// Period, e.g. "2026-Q1", "2026-01". Required.
    pub period: String,
}

/// Parameters for `search`.
#[derive(Debug, Clone, PartialEq, Eq)]
pub struct SearchParams {
    /// Full-text query over PR/issue titles, bodies, and comments.
    pub query: String,
    /// Scope: "all" (default), "pull_requests", "issues", or "comments".
    pub scope: Option<String>,
    /// Restrict to one repository ("owner/name").
    pub repository: Option<String>,
    /// Max rows to return. Default: 50.
    pub limit: Option<u32>,
}

/// Parameters for `manage_monitors`.
#[derive(Debug, Clone, PartialEq, Eq)]
pub struct MonitorParams {
    /// "list" (default), "add", or "remove".
    pub action: Option<String>,
    /// "user", "repo", or "org". Required for add/remove.
    pub entity_type: Option<String>,
    /// login or "owner/name". Required for add/remove.
    pub name: Option<String>,
}

impl Default for MonitorParams {
    fn default() -> (params: MonitorParams)
        ensures
            params == (MonitorParams { action: None, entity_type: None, name: None }),
    {
        MonitorParams { action: None, entity_type: None, name: None }
    }
}

/// Parameters for `trigger_sync`.
#[derive(Debug, Clone, PartialEq, Eq)]
pub struct SyncParams {
    /// "repo" (currently the only supported entity type).
    pub entity_type: String,
    /// Repository in "owner/name" form.
    pub name: String,
    /// Days to sync. Default: 30.
    pub days: Option<u32>,
}

} // verus!
