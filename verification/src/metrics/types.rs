//! Metrics value types.

use vstd::prelude::*;
use crate::number::{decimal, explicit_decimal, push_decimal, push_explicit};
use crate::query::{
    bare_login, display_identity, entity_namespace, namespace_in, shown_identity, to_bare_login,
};
use crate::text::{copy, lowercase, opt_str, opt_text};

verus! {

/// A single measure compared against the previous period.
#[derive(Debug, Clone, Copy, PartialEq, Eq, Structural)]
pub struct MetricWithDelta {
    pub current: u64,
    pub previous: u64,
    pub delta: i64,
}

/// How a measure is shown, given the text of its percentage: no change, the
/// change alone where there was nothing before, else the change and the
/// percentage.
pub open spec fn measure_text(metric: MetricWithDelta, percent: Option<Seq<char>>) -> Seq<char> {
    if metric.delta == 0 {
        decimal(metric.current as nat) + " (no change)"@
    } else {
        match percent {
            Some(percent) => decimal(metric.current as nat) + " ("@ + explicit_decimal(
                metric.delta as int,
            ) + ", "@ + percent + "%)"@,
            None => decimal(metric.current as nat) + " ("@ + explicit_decimal(metric.delta as int)
                + ")"@,
        }
    }
}

impl MetricWithDelta {
    /// Compare a measure with its previous value.
    pub fn new(current: u64, previous: u64) -> (metric: MetricWithDelta)
        requires
            current <= i64::MAX,
            previous <= i64::MAX,
        ensures
            metric.current == current,
            metric.previous == previous,
            metric.delta == current - previous,
    {
        MetricWithDelta { current, previous, delta: current as i64 - previous as i64 }
    }

    /// Compare two sums as the database gives them. A negative sum counts as
    /// zero.
    pub fn measured(current: i64, previous: i64) -> (metric: MetricWithDelta)
        ensures
            metric.current == (if current >= 0 {
                current as int
            } else {
                0
            }),
            metric.previous == (if previous >= 0 {
                previous as int
            } else {
                0
            }),
            metric.delta == metric.current - metric.previous,
    {
        let now: u64 = if current >= 0 {
            current as u64
        } else {
            0
        };
        let before: u64 = if previous >= 0 {
            previous as u64
        } else {
            0
        };
        MetricWithDelta::new(now, before)
    }

    /// Does the measure have a percentage? It has none where there was nothing
    /// before.
    pub fn has_percent(&self) -> (yes: bool)
        ensures
            yes == (self.previous != 0),
    {
        self.previous != 0
    }

    /// Render like `42 (+8, +23%)`, given the text of the percentage.
    pub fn render(&self, percent: Option<&str>) -> (text: String)
        ensures
            text@ == measure_text(*self, opt_str(percent)),
    {
        let mut text = String::new();
        push_decimal(&mut text, self.current);
        assert(text@ =~= decimal(self.current as nat));
        if self.delta == 0 {
            text.append(" (no change)");
            return text;
        }
        text.append(" (");
        push_explicit(&mut text, self.delta);
        match percent {
            Some(percent) => {
                text.append(", ");
                text.append(percent);
                text.append("%)");
            },
            None => {
                text.append(")");
            },
        }
        text
    }
}

/// A ranked entity (user or repo) for leaderboards.
#[derive(Debug, Clone, PartialEq, Eq)]
pub struct EntityMetric {
    pub entity_key: String,
    pub entity_name: Option<String>,
    pub current: u64,
    pub previous: u64,
    pub delta: i64,
    pub rank_current: u32,
    pub rank_previous: Option<u32>,
}

/// The name that a ranked entity is shown under.
pub open spec fn ranked_name(metric: EntityMetric) -> Seq<char> {
    match opt_text(metric.entity_name) {
        Some(name) => name,
        None => shown_identity(
            bare_login(metric.entity_key@),
            namespace_in(lowercase(metric.entity_key@)),
        ),
    }
}

/// The movement of a ranked entity.
pub open spec fn movement(metric: EntityMetric) -> Seq<char> {
    match metric.rank_previous {
        Some(previous) => if previous != metric.rank_current {
            " [was #"@ + decimal(previous as nat) + "]"@
        } else {
            Seq::empty()
        },
        None => " [new]"@,
    }
}

/// The line of a ranked entity.
pub open spec fn ranked_text(metric: EntityMetric) -> Seq<char> {
    "#"@ + decimal(metric.rank_current as nat) + " "@ + ranked_name(metric) + " — "@ + decimal(
        metric.current as nat,
    ) + " ("@ + explicit_decimal(metric.delta as int) + ")"@ + movement(metric)
}

/// The number of an optional rank.
pub open spec fn opt_rank(rank: Option<i64>) -> Option<int> {
    match rank {
        Some(rank) => Some(rank as int),
        None => None,
    }
}

/// The entity has the counts and the ranks of its row.
pub open spec fn is_ranked(
    metric: EntityMetric,
    current: int,
    previous: int,
    rank_current: int,
    rank_previous: Option<int>,
) -> bool {
    &&& metric.current == current
    &&& metric.previous == previous
    &&& metric.delta == current - previous
    &&& metric.rank_current == rank_current
    &&& match rank_previous {
        Some(rank) => metric.rank_previous is Some && metric.rank_previous->Some_0 == rank,
        None => metric.rank_previous is None,
    }
}

impl EntityMetric {
    /// The entity of one leaderboard row.
    pub fn from_row(
        entity_key: String,
        entity_name: Option<String>,
        current: i64,
        previous: i64,
        rank_current: i64,
        rank_previous: Option<i64>,
    ) -> (metric: EntityMetric)
        requires
            current >= 0,
            previous >= 0,
            0 <= rank_current <= u32::MAX,
            rank_previous is Some ==> 0 <= rank_previous->Some_0 <= u32::MAX,
        ensures
            metric.entity_key == entity_key,
            metric.entity_name == entity_name,
            is_ranked(
                metric,
                current as int,
                previous as int,
                rank_current as int,
                opt_rank(rank_previous),
            ),
    {
        EntityMetric {
            entity_key,
            entity_name,
            current: current as u64,
            previous: previous as u64,
            delta: current - previous,
            rank_current: rank_current as u32,
            rank_previous: match rank_previous {
                Some(rank) => Some(rank as u32),
                None => None,
            },
        }
    }

    /// Render like `#1 alice — 42 (+8) [was #3]`.
    ///
    /// With no display name to fall back on, the key is reduced to its bare
    /// login rather than shown verbatim: a leaderboard row is read by a person,
    /// so it should never be the first place a namespaced key surfaces.
    /// Repository keys carry no namespace and pass through untouched.
    pub fn render(&self) -> (line: String)
        ensures
            line@ == ranked_text(*self),
    {
        let name = match &self.entity_name {
            Some(name) => copy(name.as_str()),
            None => display_identity(
                &to_bare_login(self.entity_key.as_str()),
                &entity_namespace(self.entity_key.as_str()),
            ),
        };
        let mut line = copy("#");
        push_decimal(&mut line, self.rank_current as u64);
        line.append(" ");
        line.append(&name);
        line.append(" — ");
        push_decimal(&mut line, self.current);
        line.append(" (");
        push_explicit(&mut line, self.delta);
        line.append(")");
        let ghost so_far = line@;
        match self.rank_previous {
            Some(previous) => {
                if previous != self.rank_current {
                    let mut moved = copy(" [was #");
                    push_decimal(&mut moved, previous as u64);
                    moved.append("]");
                    line.append(&moved);
                } else {
                    assert(so_far + Seq::empty() =~= so_far);
                }
            },
            None => {
                line.append(" [new]");
            },
        }
        line
    }
}

/// Headline metrics for one user.
#[derive(Debug, PartialEq, Eq)]
pub struct UserMetrics {
    /// The login, exactly as GitHub spells it, never namespaced.
    pub login: String,
    /// The namespace that login was stored under: `user` or `bot`.
    pub entity_type: String,
    /// The warehouse key the report is labeled with, for callers joining back
    /// to the star schema. Always `entity_type` + `:` + `login`. A bare login
    /// that resolves to more than one entity is measured across all of them and
    /// labeled with the first.
    pub entity_key: String,
    pub period_key: String,
    pub previous_period_key: String,
    pub current_date_range: (String, String),
    pub previous_date_range: (String, String),
    pub prs_opened: MetricWithDelta,
    pub prs_merged: MetricWithDelta,
    pub reviews_given: MetricWithDelta,
    pub reviews_received: MetricWithDelta,
    pub comments_given: MetricWithDelta,
    pub lines_added: MetricWithDelta,
    pub lines_removed: MetricWithDelta,
}

impl UserMetrics {
    /// The report's subject for a single-line header: the bare login, with a
    /// bot marked so it cannot be read as a person of the same name.
    pub fn display_login(&self) -> (shown: String)
        ensures
            shown@ == shown_identity(self.login@, self.entity_type@),
    {
        display_identity(self.login.as_str(), self.entity_type.as_str())
    }
}

/// Leaderboards for one user.
#[derive(Debug, PartialEq, Eq)]
pub struct UserAggregations {
    pub top_repos: Vec<EntityMetric>,
    pub top_reviewers: Vec<EntityMetric>,
    pub top_reviewed_authors: Vec<EntityMetric>,
}

/// Headline metrics for one repository.
#[derive(Debug, PartialEq, Eq)]
pub struct RepoMetrics {
    pub repository: String,
    pub period_key: String,
    pub previous_period_key: String,
    pub current_date_range: (String, String),
    pub previous_date_range: (String, String),
    pub prs_opened: MetricWithDelta,
    pub prs_merged: MetricWithDelta,
    pub total_reviews: MetricWithDelta,
    pub total_comments: MetricWithDelta,
    /// Failed check runs and all check runs, where there are any.
    pub check_failures: Option<(i64, i64)>,
}

/// Leaderboards for one repository.
#[derive(Debug, PartialEq, Eq)]
pub struct RepoAggregations {
    pub top_contributors: Vec<EntityMetric>,
    pub top_mergers: Vec<EntityMetric>,
    pub top_reviewers: Vec<EntityMetric>,
    pub top_commenters: Vec<EntityMetric>,
}

/// Headline metrics for a group.
#[derive(Debug, PartialEq, Eq)]
pub struct GroupMetrics {
    pub group_name: String,
    /// `user` or `repo`.
    pub kind: String,
    pub member_count: u64,
    pub period_key: String,
    pub previous_period_key: String,
    pub prs_opened: MetricWithDelta,
    pub prs_merged: MetricWithDelta,
    pub reviews_given: Option<MetricWithDelta>,
    pub total_reviews: Option<MetricWithDelta>,
    pub total_comments: Option<MetricWithDelta>,
}

/// Leaderboards for a group.
#[derive(Debug, PartialEq, Eq)]
pub struct GroupAggregations {
    pub top_members: Vec<EntityMetric>,
    pub top_repos: Vec<EntityMetric>,
    pub top_external_reviewers: Vec<EntityMetric>,
}

/// A ranked entity shows its current count and rank and how much it grew; an
/// earlier rank is shown where it was another one, and an entity without one is
/// marked as new.
pub proof fn law_a_ranked_entity_shows_its_row(
    metric: EntityMetric,
    current: nat,
    previous: int,
    rank_current: nat,
    rank_previous: Option<int>,
)
    requires
        is_ranked(metric, current as int, previous, rank_current as int, rank_previous),
    ensures
        metric.previous + metric.delta == metric.current,
        ranked_text(metric) == "#"@ + decimal(rank_current) + " "@ + ranked_name(metric) + " — "@
            + decimal(current) + " ("@ + explicit_decimal(current - previous) + ")"@ + (
        match rank_previous {
            Some(rank) => if rank != rank_current {
                " [was #"@ + decimal(rank as nat) + "]"@
            } else {
                Seq::empty()
            },
            None => " [new]"@,
        }),
{
}

} // verus!
