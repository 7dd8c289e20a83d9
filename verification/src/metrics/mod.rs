//! MetricsEngine: period-over-period analytics over the star schema.

use vstd::prelude::*;
use crate::calendar::{date_key, Date};
use crate::metrics::types::{
    GroupMetrics, MetricWithDelta, RepoMetrics, UserMetrics,
};
use crate::number::{decimal, push_decimal, push_signed, signed_decimal};
use crate::period::{
    capped_end, elapsed, has_before, has_range, in_progress, span_before, span_end, span_key,
    span_start, Period, Span,
};
use crate::query::{
    bare_login, entity_namespace, namespace_in, text_cells, to_bare_login,
};
use crate::sql::{cells, commands, Cell, Command, SqlValue, Statement};
use crate::storage::sync_state_repository::Window;
use crate::text::{
    copy, join2, join3, lower, lowercase, placeholder_list, placeholders, texts,
};

pub mod meaning;
pub mod types;

verus! {

// ---------------------------------------------------------------- windows

/// The positional column that truncates the previous period.
pub open spec fn position_of(span: Span) -> Seq<char> {
    match span {
        Span::Year(_) => "day_of_year"@,
        Span::Half(_, _) => "day_of_half"@,
        Span::Quarter(_, _) => "day_of_quarter"@,
        Span::Month(_, _) => "day_of_month"@,
        Span::Week(_, _) => "day_of_week"@,
        Span::Rolling(_, _) => Seq::empty(),
    }
}

/// The current window of a comparison: the period up to the reference day.
pub open spec fn current_window(span: Span, reference: int) -> Window {
    Window { start: span_start(span), end: capped_end(span, reference) }
}

/// The previous window of a comparison: the previous period, cut back to as
/// many days as have elapsed while the period is in progress.
pub open spec fn previous_window(span: Span, reference: int) -> Window {
    let previous = span_before(span);
    let cut = span_start(previous) + elapsed(span, reference) - 1;
    Window {
        start: span_start(previous),
        end: if in_progress(span, reference) && cut < span_end(previous) {
            cut
        } else {
            span_end(previous)
        },
    }
}

/// The guard on the previous window while the period is in progress.
pub open spec fn position_filter(span: Span, reference: int) -> Seq<char> {
    if in_progress(span, reference) {
        " AND dd."@ + position_of(span) + " <= "@ + signed_decimal(elapsed(span, reference))
    } else {
        Seq::empty()
    }
}

/// While a period is in progress it is compared with as many days of the
/// previous period, or with all of it where it is shorter; a complete period is
/// compared with the whole previous one.
pub proof fn law_comparisons_are_fair(span: Span, reference: int)
    requires
        span_start(span) <= span_end(span),
        span_start(span_before(span)) <= span_end(span_before(span)),
    ensures
        in_progress(span, reference) ==> {
            let now = current_window(span, reference);
            let before = previous_window(span, reference);
            let days = now.end - now.start + 1;
            let whole = span_end(span_before(span)) - span_start(span_before(span)) + 1;
            &&& days >= 1
            &&& before.end - before.start + 1 == (if days < whole {
                days
            } else {
                whole
            })
        },
        !in_progress(span, reference) ==> previous_window(span, reference).end == span_end(
            span_before(span),
        ),
{
}

/// The two comparison windows, partial-period aware.
#[derive(Debug, PartialEq, Eq)]
pub struct Windows {
    pub current_start: String,
    pub current_end: String,
    pub previous_start: String,
    pub previous_end: String,
    /// Extra guard on the previous window (`AND dd.day_of_quarter <= N`).
    pub previous_position_filter: String,
    pub period_key: String,
    pub previous_period_key: String,
}

/// The model of the comparison windows.
pub ghost struct Comparison {
    pub current_start: Seq<char>,
    pub current_end: Seq<char>,
    pub previous_start: Seq<char>,
    pub previous_end: Seq<char>,
    pub position_filter: Seq<char>,
    pub period_key: Seq<char>,
    pub previous_period_key: Seq<char>,
}

impl View for Windows {
    type V = Comparison;

    open spec fn view(&self) -> Comparison {
        Comparison {
            current_start: self.current_start@,
            current_end: self.current_end@,
            previous_start: self.previous_start@,
            previous_end: self.previous_end@,
            position_filter: self.previous_position_filter@,
            period_key: self.period_key@,
            previous_period_key: self.previous_period_key@,
        }
    }
}

/// The comparison of a period on a reference day.
pub open spec fn comparison_of(span: Span, reference: int) -> Comparison {
    Comparison {
        current_start: date_key(current_window(span, reference).start),
        current_end: date_key(current_window(span, reference).end),
        previous_start: date_key(previous_window(span, reference).start),
        previous_end: date_key(previous_window(span, reference).end),
        position_filter: position_filter(span, reference),
        period_key: span_key(span),
        previous_period_key: span_key(span_before(span)),
    }
}

/// The period and the one before it can be written as dates.
pub open spec fn is_comparable(span: Span) -> bool {
    &&& has_range(span)
    &&& has_before(span)
    &&& has_range(span_before(span))
}

// ---------------------------------------------------------------- measures

/// The tables that hold pull requests.
pub const PULL_REQUESTS: &'static str = "fact_pull_requests p";

/// The tables that hold reviews with their pull requests.
pub const REVIEWS: &'static str = "fact_reviews fr JOIN fact_pull_requests p ON p.pr_key = fr.pr_key";

/// The tables that hold comments with their pull requests.
pub const COMMENTS: &'static str = "(SELECT author_key, pr_key, created_date_key FROM fact_review_comments
              UNION ALL
              SELECT author_key, parent_key AS pr_key, created_date_key
              FROM fact_issue_comments WHERE parent_type = 'pull_request') fc
             JOIN fact_pull_requests p ON p.pr_key = fc.pr_key";

/// A range of date keys as SQL compares it.
pub open spec fn between(start: Seq<char>, end: Seq<char>) -> Seq<char> {
    "dd.date_key BETWEEN '"@ + start + "' AND '"@ + end + "'"@
}

fn between_text(start: &str, end: &str) -> (text: String)
    ensures
        text@ == between(start@, end@),
{
    let mut text = copy("dd.date_key BETWEEN '");
    text.append(start);
    text.append("' AND '");
    text.append(end);
    text.append("'");
    text
}

/// One conditional-aggregation query for the current and the previous sum of a
/// value.
#[verifier::opaque]
pub open spec fn measure_sql(
    from_clause: Seq<char>,
    date_column: Seq<char>,
    extra: Seq<char>,
    value: Seq<char>,
    windows: Comparison,
) -> Seq<char> {
    let now = between(windows.current_start, windows.current_end);
    let before = between(windows.previous_start, windows.previous_end);
    "SELECT
                COALESCE(SUM(CASE WHEN "@ + now + "
                    THEN "@ + value + " ELSE 0 END), 0) AS current_value,
                COALESCE(SUM(CASE WHEN "@ + before + windows.position_filter + "
                    THEN "@ + value + " ELSE 0 END), 0) AS previous_value
             FROM "@ + from_clause + "
             JOIN dim_date dd ON dd.date_key = "@ + date_column + "
             WHERE (("@ + now + ")
                 OR ("@ + before + "))
                 "@ + extra
}

/// Repeat a list of texts as parameters.
fn text_params(values: &Vec<String>, twice: bool) -> (params: Vec<SqlValue>)
    ensures
        cells(params@) == (if twice {
            text_cells(texts(values@)) + text_cells(texts(values@))
        } else {
            text_cells(texts(values@))
        }),
{
    let mut params: Vec<SqlValue> = Vec::new();
    push_params(&mut params, values);
    assert(Seq::<Cell>::empty() + text_cells(texts(values@)) =~= text_cells(texts(values@)));
    if twice {
        push_params(&mut params, values);
    }
    params
}

fn push_params(params: &mut Vec<SqlValue>, values: &Vec<String>)
    ensures
        cells(final(params)@) == cells(old(params)@) + text_cells(texts(values@)),
{
    let ghost before = cells(params@);
    let ghost wanted = text_cells(texts(values@));
    let mut i: usize = 0;
    assert(before + wanted.take(0) =~= before);
    while i < values.len()
        invariant
            i <= values.len(),
            wanted == text_cells(texts(values@)),
            cells(params@) == before + wanted.take(i as int),
        decreases values.len() - i,
    {
        let ghost earlier = params@;
        let value = SqlValue::Text(copy(values[i].as_str()));
        params.push(value);
        assert(cells(params@) =~= cells(earlier).push(value@));
        assert(before + wanted.take(i + 1) =~= (before + wanted.take(i as int)).push(
            wanted[i as int],
        ));
        i = i + 1;
    }
    assert(wanted.take(values@.len() as int) =~= wanted);
}

/// One conditional-aggregation query returning (current, previous) sums.
pub fn split_measure(
    from_clause: &str,
    date_column: &str,
    extra_conditions: &str,
    value_expression: &str,
    parameters: Vec<SqlValue>,
    windows: &Windows,
) -> (statement: Statement)
    ensures
        statement@ == (Command {
            sql: measure_sql(
                from_clause@,
                date_column@,
                extra_conditions@,
                value_expression@,
                windows@,
            ),
            params: cells(parameters@),
        }),
{
    let now = between_text(windows.current_start.as_str(), windows.current_end.as_str());
    let before = between_text(windows.previous_start.as_str(), windows.previous_end.as_str());
    let mut sql = copy(
        "SELECT
                COALESCE(SUM(CASE WHEN ",
    );
    sql.append(&now);
    sql.append("
                    THEN ");
    sql.append(value_expression);
    sql.append(
        " ELSE 0 END), 0) AS current_value,
                COALESCE(SUM(CASE WHEN ",
    );
    sql.append(&before);
    sql.append(windows.previous_position_filter.as_str());
    sql.append("
                    THEN ");
    sql.append(value_expression);
    sql.append(
        " ELSE 0 END), 0) AS previous_value
             FROM ",
    );
    sql.append(from_clause);
    sql.append("
             JOIN dim_date dd ON dd.date_key = ");
    sql.append(date_column);
    sql.append("
             WHERE ((");
    sql.append(&now);
    sql.append(")
                 OR (");
    sql.append(&before);
    sql.append("))
                 ");
    sql.append(extra_conditions);
    proof {
        reveal(measure_sql);
    }
    Statement { sql, params: parameters }
}

/// The two-window leaderboard query with rank movement. An entity without a
/// display name has none in the result.
#[verifier::opaque]
pub open spec fn leaderboard_sql(
    entity: Seq<char>,
    from_clause: Seq<char>,
    date_column: Seq<char>,
    extra: Seq<char>,
    windows: Comparison,
    top: int,
) -> Seq<char> {
    let now = between(windows.current_start, windows.current_end);
    let before = between(windows.previous_start, windows.previous_end);
    "WITH counts AS (
                SELECT "@ + entity + " AS entity_key,
                    SUM(CASE WHEN "@ + now + " THEN 1 ELSE 0 END) AS current_count,
                    SUM(CASE WHEN "@ + before + windows.position_filter
        + " THEN 1 ELSE 0 END) AS previous_count
                FROM "@ + from_clause + "
                JOIN dim_date dd ON dd.date_key = "@ + date_column + "
                WHERE (("@ + now + ")
                    OR ("@ + before + "))
                    "@ + extra + LEADERBOARD_RANKS@ + decimal(top as nat)
}

/// The leaderboard query behind its conditions, up to its limit.
pub const LEADERBOARD_RANKS: &'static str = "
                GROUP BY entity_key
             ),
             ranked AS (
                SELECT entity_key, current_count, previous_count,
                    ROW_NUMBER() OVER (ORDER BY current_count DESC, entity_key) AS rank_current,
                    CASE WHEN previous_count > 0
                        THEN ROW_NUMBER() OVER (ORDER BY previous_count DESC, entity_key)
                        ELSE NULL END AS rank_previous
                FROM counts
             )
             SELECT r.entity_key, COALESCE(e.name, dr.name),
                    r.current_count, r.previous_count, r.rank_current, r.rank_previous
             FROM ranked r
             LEFT JOIN dim_entities e ON e.entity_key = r.entity_key
             LEFT JOIN dim_repositories dr ON dr.repo_key = r.entity_key
             WHERE r.current_count > 0
             ORDER BY r.rank_current
             LIMIT ";

/// Generic two-window leaderboard with rank movement.
pub fn leaderboard(
    entity_expression: &str,
    from_clause: &str,
    date_column: &str,
    extra_conditions: &str,
    parameters: Vec<SqlValue>,
    windows: &Windows,
    top: u32,
) -> (statement: Statement)
    ensures
        statement@ == (Command {
            sql: leaderboard_sql(
                entity_expression@,
                from_clause@,
                date_column@,
                extra_conditions@,
                windows@,
                top as int,
            ),
            params: cells(parameters@),
        }),
{
    let now = between_text(windows.current_start.as_str(), windows.current_end.as_str());
    let before = between_text(windows.previous_start.as_str(), windows.previous_end.as_str());
    let mut sql = copy("WITH counts AS (
                SELECT ");
    sql.append(entity_expression);
    sql.append(" AS entity_key,
                    SUM(CASE WHEN ");
    sql.append(&now);
    sql.append(
        " THEN 1 ELSE 0 END) AS current_count,
                    SUM(CASE WHEN ",
    );
    sql.append(&before);
    sql.append(windows.previous_position_filter.as_str());
    sql.append(
        " THEN 1 ELSE 0 END) AS previous_count
                FROM ",
    );
    sql.append(from_clause);
    sql.append("
                JOIN dim_date dd ON dd.date_key = ");
    sql.append(date_column);
    sql.append("
                WHERE ((");
    sql.append(&now);
    sql.append(")
                    OR (");
    sql.append(&before);
    sql.append("))
                    ");
    sql.append(extra_conditions);
    sql.append(LEADERBOARD_RANKS);
    push_decimal(&mut sql, top as u64);
    proof {
        reveal(leaderboard_sql);
    }
    Statement { sql, params: parameters }
}

// ---------------------------------------------------------------- conditions

/// The condition that a column holds one of `count` keys.
pub open spec fn only_sql(column: Seq<char>, count: nat) -> Seq<char> {
    "AND "@ + column + " IN ("@ + placeholder_list(count) + ")"@
}

/// The condition that a column holds one of `count` keys and another one none
/// of them.
pub open spec fn only_except_sql(column: Seq<char>, other: Seq<char>, count: nat) -> Seq<char> {
    only_sql(column, count) + " AND "@ + other + " NOT IN ("@ + placeholder_list(count) + ")"@
}

/// The further condition that a pull request is merged.
pub const AND_MERGED: &'static str = " AND p.state = 'MERGED'";

fn only(column: &str, count: usize) -> (text: String)
    ensures
        text@ == only_sql(column@, count as nat),
{
    let mut text = join3("AND ", column, " IN (");
    text.append(&placeholders(count));
    text.append(")");
    text
}

fn only_except(column: &str, other: &str, count: usize) -> (text: String)
    ensures
        text@ == only_except_sql(column@, other@, count as nat),
{
    let mut text = only(column, count);
    text.append(" AND ");
    text.append(other);
    text.append(" NOT IN (");
    text.append(&placeholders(count));
    text.append(")");
    text
}

/// The parameters of a condition on keys, once or twice.
pub open spec fn key_cells(keys: Seq<Seq<char>>, twice: bool) -> Seq<Cell> {
    if twice {
        text_cells(keys) + text_cells(keys)
    } else {
        text_cells(keys)
    }
}

/// The command of one measure.
pub open spec fn measure(
    from_clause: Seq<char>,
    date_column: Seq<char>,
    extra: Seq<char>,
    value: Seq<char>,
    params: Seq<Cell>,
    windows: Comparison,
) -> Command {
    Command { sql: measure_sql(from_clause, date_column, extra, value, windows), params }
}

/// The command of one leaderboard.
pub open spec fn board(
    entity: Seq<char>,
    from_clause: Seq<char>,
    date_column: Seq<char>,
    extra: Seq<char>,
    params: Seq<Cell>,
    windows: Comparison,
    top: int,
) -> Command {
    Command {
        sql: leaderboard_sql(entity, from_clause, date_column, extra, windows, top),
        params,
    }
}

/// The metric compares the two sums that a measure gave.
pub open spec fn is_measured(metric: MetricWithDelta, sums: (i64, i64)) -> bool {
    &&& metric.current == (if sums.0 >= 0 {
        sums.0 as int
    } else {
        0
    })
    &&& metric.previous == (if sums.1 >= 0 {
        sums.1 as int
    } else {
        0
    })
    &&& metric.delta == metric.current - metric.previous
}

/// The report on a user compares the sums of its measures, in their order.
pub open spec fn shows_user_sums(report: UserMetrics, sums: Seq<(i64, i64)>) -> bool {
    &&& is_measured(report.prs_opened, sums[0])
    &&& is_measured(report.prs_merged, sums[1])
    &&& is_measured(report.reviews_given, sums[2])
    &&& is_measured(report.reviews_received, sums[3])
    &&& is_measured(report.comments_given, sums[4])
    &&& is_measured(report.lines_added, sums[5])
    &&& is_measured(report.lines_removed, sums[6])
}

/// The report on a repository compares the sums of its measures, in their order.
pub open spec fn shows_repo_sums(report: RepoMetrics, sums: Seq<(i64, i64)>) -> bool {
    &&& is_measured(report.prs_opened, sums[0])
    &&& is_measured(report.prs_merged, sums[1])
    &&& is_measured(report.total_reviews, sums[2])
    &&& is_measured(report.total_comments, sums[3])
}

/// The report on a user group compares the sums of its measures, in their order.
pub open spec fn shows_user_group_sums(report: GroupMetrics, sums: Seq<(i64, i64)>) -> bool {
    &&& is_measured(report.prs_opened, sums[0])
    &&& is_measured(report.prs_merged, sums[1])
    &&& report.reviews_given matches Some(given) && is_measured(given, sums[2])
    &&& report.total_reviews is None
    &&& report.total_comments is None
}

/// The report on a repository group compares the sums of its measures, in their
/// order.
pub open spec fn shows_repo_group_sums(report: GroupMetrics, sums: Seq<(i64, i64)>) -> bool {
    &&& is_measured(report.prs_opened, sums[0])
    &&& is_measured(report.prs_merged, sums[1])
    &&& report.reviews_given is None
    &&& report.total_reviews matches Some(reviews) && is_measured(reviews, sums[2])
    &&& report.total_comments matches Some(comments) && is_measured(comments, sums[3])
}

fn metric_of(sums: &(i64, i64)) -> (metric: MetricWithDelta)
    ensures
        is_measured(metric, *sums),
{
    MetricWithDelta::measured(sums.0, sums.1)
}

// ---------------------------------------------------------------- reports

/// The measures of a user report: opened, merged, reviews given and received,
/// comments given, lines added and removed.
pub open spec fn user_measures_commands(keys: Seq<Seq<char>>, windows: Comparison) -> Seq<Command> {
    seq![
        measure(
            PULL_REQUESTS@,
            "p.created_date_key"@,
            only_sql("p.author_key"@, keys.len()),
            "1"@,
            key_cells(keys, false),
            windows,
        ),
        measure(
            PULL_REQUESTS@,
            "p.created_date_key"@,
            only_sql("p.author_key"@, keys.len()) + AND_MERGED@,
            "1"@,
            key_cells(keys, false),
            windows,
        ),
        measure(
            REVIEWS@,
            "fr.submitted_date_key"@,
            only_except_sql("fr.reviewer_key"@, "p.author_key"@, keys.len()),
            "1"@,
            key_cells(keys, true),
            windows,
        ),
        measure(
            REVIEWS@,
            "fr.submitted_date_key"@,
            only_except_sql("p.author_key"@, "fr.reviewer_key"@, keys.len()),
            "1"@,
            key_cells(keys, true),
            windows,
        ),
        measure(
            COMMENTS@,
            "fc.created_date_key"@,
            only_except_sql("fc.author_key"@, "p.author_key"@, keys.len()),
            "1"@,
            key_cells(keys, true),
            windows,
        ),
        measure(
            PULL_REQUESTS@,
            "p.created_date_key"@,
            only_sql("p.author_key"@, keys.len()),
            "p.additions"@,
            key_cells(keys, false),
            windows,
        ),
        measure(
            PULL_REQUESTS@,
            "p.created_date_key"@,
            only_sql("p.author_key"@, keys.len()),
            "p.deletions"@,
            key_cells(keys, false),
            windows,
        ),
    ]
}

/// The leaderboards of a user report: repositories, review authors and reviewed
/// authors.
pub open spec fn user_aggregations_commands(keys: Seq<Seq<char>>, windows: Comparison, top: int) -> Seq<Command> {
    seq![
        board(
            "p.repo_key"@,
            PULL_REQUESTS@,
            "p.created_date_key"@,
            only_sql("p.author_key"@, keys.len()),
            key_cells(keys, false),
            windows,
            top,
        ),
        board(
            "fr.reviewer_key"@,
            REVIEWS@,
            "fr.submitted_date_key"@,
            only_except_sql("p.author_key"@, "fr.reviewer_key"@, keys.len()),
            key_cells(keys, true),
            windows,
            top,
        ),
        board(
            "p.author_key"@,
            REVIEWS@,
            "fr.submitted_date_key"@,
            only_except_sql("fr.reviewer_key"@, "p.author_key"@, keys.len()),
            key_cells(keys, true),
            windows,
            top,
        ),
    ]
}

/// The measures of a repository report: opened, merged, reviews, comments.
pub open spec fn repo_measures_commands(keys: Seq<Seq<char>>, windows: Comparison) -> Seq<Command> {
    seq![
        measure(
            PULL_REQUESTS@,
            "p.created_date_key"@,
            "AND p.repo_key = ?"@,
            "1"@,
            key_cells(keys, false),
            windows,
        ),
        measure(
            PULL_REQUESTS@,
            "p.created_date_key"@,
            "AND p.repo_key = ?"@ + AND_MERGED@,
            "1"@,
            key_cells(keys, false),
            windows,
        ),
        measure(
            REVIEWS@,
            "fr.submitted_date_key"@,
            "AND p.repo_key = ?"@,
            "1"@,
            key_cells(keys, false),
            windows,
        ),
        measure(
            COMMENTS@,
            "fc.created_date_key"@,
            "AND p.repo_key = ?"@,
            "1"@,
            key_cells(keys, false),
            windows,
        ),
    ]
}

/// The leaderboards of a repository report: contributors, mergers, review authors and
/// commenters.
pub open spec fn repo_aggregations_commands(keys: Seq<Seq<char>>, windows: Comparison, top: int) -> Seq<Command> {
    seq![
        board(
            "p.author_key"@,
            PULL_REQUESTS@,
            "p.created_date_key"@,
            "AND p.repo_key = ?"@,
            key_cells(keys, false),
            windows,
            top,
        ),
        board(
            "p.author_key"@,
            PULL_REQUESTS@,
            "p.created_date_key"@,
            "AND p.repo_key = ?"@ + AND_MERGED@,
            key_cells(keys, false),
            windows,
            top,
        ),
        board(
            "fr.reviewer_key"@,
            REVIEWS@,
            "fr.submitted_date_key"@,
            "AND p.repo_key = ?"@,
            key_cells(keys, false),
            windows,
            top,
        ),
        board(
            "fc.author_key"@,
            COMMENTS@,
            "fc.created_date_key"@,
            "AND p.repo_key = ?"@,
            key_cells(keys, false),
            windows,
            top,
        ),
    ]
}

/// The measures of a user group: opened, merged, reviews given to outsiders.
pub open spec fn user_group_measures_commands(keys: Seq<Seq<char>>, windows: Comparison) -> Seq<Command> {
    seq![
        measure(
            PULL_REQUESTS@,
            "p.created_date_key"@,
            only_sql("p.author_key"@, keys.len()),
            "1"@,
            key_cells(keys, false),
            windows,
        ),
        measure(
            PULL_REQUESTS@,
            "p.created_date_key"@,
            only_sql("p.author_key"@, keys.len()) + AND_MERGED@,
            "1"@,
            key_cells(keys, false),
            windows,
        ),
        measure(
            REVIEWS@,
            "fr.submitted_date_key"@,
            only_except_sql("fr.reviewer_key"@, "p.author_key"@, keys.len()),
            "1"@,
            key_cells(keys, true),
            windows,
        ),
    ]
}

/// The measures of a repository group: opened, merged, reviews, comments.
pub open spec fn repo_group_measures_commands(keys: Seq<Seq<char>>, windows: Comparison) -> Seq<Command> {
    seq![
        measure(
            PULL_REQUESTS@,
            "p.created_date_key"@,
            only_sql("p.repo_key"@, keys.len()),
            "1"@,
            key_cells(keys, false),
            windows,
        ),
        measure(
            PULL_REQUESTS@,
            "p.created_date_key"@,
            only_sql("p.repo_key"@, keys.len()) + AND_MERGED@,
            "1"@,
            key_cells(keys, false),
            windows,
        ),
        measure(
            REVIEWS@,
            "fr.submitted_date_key"@,
            only_sql("p.repo_key"@, keys.len()),
            "1"@,
            key_cells(keys, false),
            windows,
        ),
        measure(
            COMMENTS@,
            "fc.created_date_key"@,
            only_sql("p.repo_key"@, keys.len()),
            "1"@,
            key_cells(keys, false),
            windows,
        ),
    ]
}

/// The check-failure query up to the start of its window.
pub const CHECKS_SQL: &'static str = "SELECT SUM(CASE WHEN c.conclusion IN ('FAILURE', 'TIMED_OUT') THEN 1 ELSE 0 END),
                            COUNT(*)
                     FROM fact_check_runs c
                     JOIN fact_pull_requests p ON p.pr_key = c.pr_key
                     JOIN dim_date dd ON dd.date_key = p.created_date_key
                     WHERE p.repo_key = ?1
                       AND ";

/// The query for the failed and all check runs of a repository.
pub open spec fn checks_command(repo_key: Seq<char>, windows: Comparison) -> Command {
    Command {
        sql: CHECKS_SQL@ + between(windows.current_start, windows.current_end),
        params: seq![Cell::Text(repo_key)],
    }
}

/// The failed and all check runs, where there are any.
pub fn check_failures(failed: Option<i64>, total: i64) -> (failures: Option<(i64, i64)>)
    ensures
        failures == (if failed is Some && total > 0 {
            Some((failed->Some_0, total))
        } else {
            None
        }),
{
    match failed {
        Some(failed) => if total > 0 {
            Some((failed, total))
        } else {
            None
        },
        None => None,
    }
}

// ---------------------------------------------------------------- engine

/// Computes user/repo/group metrics with apples-to-apples previous windows.
#[derive(Debug, PartialEq, Eq)]
pub struct MetricsEngine {
    pub reference_date: Date,
}

/// The key a user report is labeled with when a login resolves to several: the
/// first of them.
pub open spec fn label_key(keys: Seq<Seq<char>>, login: Seq<char>) -> Seq<char> {
    if keys.len() > 0 {
        keys[0]
    } else {
        lowercase(login)
    }
}

/// The type and the login of a key, as one key.
pub open spec fn normalized_key(key: Seq<char>) -> Seq<char> {
    namespace_in(lowercase(key)) + ":"@ + bare_login(key)
}

/// The key a user report is labeled with when a login resolves to several,
/// normalized so it is always `<type>:<login>`.
pub fn primary_key(keys: &Vec<String>, login: &str) -> (key: String)
    ensures
        key@ == normalized_key(label_key(texts(keys@), login@)),
{
    let label = first_key(keys, login);
    join3(&entity_namespace(&label), ":", &to_bare_login(&label))
}

fn first_key(keys: &Vec<String>, login: &str) -> (label: String)
    ensures
        label@ == label_key(texts(keys@), login@),
{
    if keys.len() > 0 {
        copy(keys[0].as_str())
    } else {
        lower(login)
    }
}

impl MetricsEngine {
    /// An engine whose relative windows and partial-period truncation resolve
    /// against a reference date: today in the warehouse's configured timezone,
    /// which is the calendar every `date_key` is built in.
    pub fn new(reference_date: Date) -> (engine: MetricsEngine)
        ensures
            engine.reference_date@ == reference_date@,
    {
        MetricsEngine { reference_date }
    }

    /// Override the reference date (tests, historical reports).
    pub fn as_of(self, reference: Date) -> (engine: MetricsEngine)
        ensures
            engine.reference_date@ == reference@,
    {
        MetricsEngine { reference_date: reference }
    }

    /// The date relative windows and partial-period truncation resolve against.
    pub fn reference_date(&self) -> (date: Date)
        ensures
            date@ == self.reference_date@,
    {
        self.reference_date
    }

    /// Can the period be compared with the one before it? It cannot where
    /// either of them leaves the calendar.
    pub fn can_compare(period: &Period) -> (yes: bool)
        ensures
            yes == is_comparable(period@),
    {
        period.has_dates() && period.has_previous() && period.previous().has_dates()
    }

    /// The two windows that a period is compared over.
    pub fn windows(&self, period: &Period) -> (windows: Windows)
        requires
            is_comparable(period@),
        ensures
            windows@ == comparison_of(period@, self.reference_date@),
    {
        let (current_start, _) = period.date_range();
        let current_end = period.effective_end_date(self.reference_date);
        let previous = period.previous();
        let (previous_start, whole_end) = previous.date_range();
        let mut previous_end = whole_end;
        let mut filter = String::new();
        assert(filter@ =~= Seq::empty());
        if period.is_partial(self.reference_date) {
            if let Some(column) = period.position_column() {
                let elapsed: i64 = period.days_elapsed(self.reference_date);
                filter = join3(" AND dd.", column, " <= ");
                push_signed(&mut filter, elapsed);
                if elapsed - 1 < whole_end.days_since(&previous_start) {
                    proof {
                        use_type_invariant(&previous_start);
                        use_type_invariant(&whole_end);
                    }
                    previous_end = previous_start.plus_days(elapsed - 1);
                }
            }
        }
        Windows {
            current_start: current_start.key(),
            current_end: current_end.key(),
            previous_start: previous_start.key(),
            previous_end: previous_end.key(),
            previous_position_filter: filter,
            period_key: period.to_key(),
            previous_period_key: previous.to_key(),
        }
    }

    /// The measures of a user report, for every entity key of the user.
    pub fn user_measures(&self, keys: &Vec<String>, period: &Period) -> (statements: Vec<
        Statement,
    >)
        requires
            is_comparable(period@),
        ensures
            commands(statements@) == user_measures_commands(
                texts(keys@),
                comparison_of(period@, self.reference_date@),
            ),
    {
        let windows = self.windows(period);
        let count: usize = keys.len();
        assert(texts(keys@).len() == count);
        let mut statements: Vec<Statement> = Vec::new();
        statements.push(
            split_measure(
                PULL_REQUESTS,
                "p.created_date_key",
                &only("p.author_key", count),
                "1",
                text_params(keys, false),
                &windows,
            ),
        );
        statements.push(
            split_measure(
                PULL_REQUESTS,
                "p.created_date_key",
                &join2(&only("p.author_key", count), AND_MERGED),
                "1",
                text_params(keys, false),
                &windows,
            ),
        );
        statements.push(
            split_measure(
                REVIEWS,
                "fr.submitted_date_key",
                &only_except("fr.reviewer_key", "p.author_key", count),
                "1",
                text_params(keys, true),
                &windows,
            ),
        );
        statements.push(
            split_measure(
                REVIEWS,
                "fr.submitted_date_key",
                &only_except("p.author_key", "fr.reviewer_key", count),
                "1",
                text_params(keys, true),
                &windows,
            ),
        );
        statements.push(
            split_measure(
                COMMENTS,
                "fc.created_date_key",
                &only_except("fc.author_key", "p.author_key", count),
                "1",
                text_params(keys, true),
                &windows,
            ),
        );
        statements.push(
            split_measure(
                PULL_REQUESTS,
                "p.created_date_key",
                &only("p.author_key", count),
                "p.additions",
                text_params(keys, false),
                &windows,
            ),
        );
        statements.push(
            split_measure(
                PULL_REQUESTS,
                "p.created_date_key",
                &only("p.author_key", count),
                "p.deletions",
                text_params(keys, false),
                &windows,
            ),
        );
        assert(commands(statements@) =~= user_measures_commands(
            texts(keys@),
            windows@,
        ));
        statements
    }

    /// The leaderboards of a user report, for every entity key of the user.
    pub fn user_aggregations(&self, keys: &Vec<String>, period: &Period, top: u32) -> (statements: Vec<
        Statement,
    >)
        requires
            is_comparable(period@),
        ensures
            commands(statements@) == user_aggregations_commands(
                texts(keys@),
                comparison_of(period@, self.reference_date@),
                top as int,
            ),
    {
        let windows = self.windows(period);
        let count: usize = keys.len();
        assert(texts(keys@).len() == count);
        let mut statements: Vec<Statement> = Vec::new();
        statements.push(
            leaderboard(
                "p.repo_key",
                PULL_REQUESTS,
                "p.created_date_key",
                &only("p.author_key", count),
                text_params(keys, false),
                &windows,
                top,
            ),
        );
        statements.push(
            leaderboard(
                "fr.reviewer_key",
                REVIEWS,
                "fr.submitted_date_key",
                &only_except("p.author_key", "fr.reviewer_key", count),
                text_params(keys, true),
                &windows,
                top,
            ),
        );
        statements.push(
            leaderboard(
                "p.author_key",
                REVIEWS,
                "fr.submitted_date_key",
                &only_except("fr.reviewer_key", "p.author_key", count),
                text_params(keys, true),
                &windows,
                top,
            ),
        );
        assert(commands(statements@) =~= user_aggregations_commands(
            texts(keys@),
            windows@,
            top as int,
        ));
        statements
    }

    /// The measures of a repository report, for its key as the only one.
    pub fn repo_measures(&self, keys: &Vec<String>, period: &Period) -> (statements: Vec<
        Statement,
    >)
        requires
            is_comparable(period@),
        ensures
            commands(statements@) == repo_measures_commands(
                texts(keys@),
                comparison_of(period@, self.reference_date@),
            ),
    {
        let windows = self.windows(period);
        let count: usize = keys.len();
        assert(texts(keys@).len() == count);
        let mut statements: Vec<Statement> = Vec::new();
        statements.push(
            split_measure(
                PULL_REQUESTS,
                "p.created_date_key",
                "AND p.repo_key = ?",
                "1",
                text_params(keys, false),
                &windows,
            ),
        );
        statements.push(
            split_measure(
                PULL_REQUESTS,
                "p.created_date_key",
                &join2("AND p.repo_key = ?", AND_MERGED),
                "1",
                text_params(keys, false),
                &windows,
            ),
        );
        statements.push(
            split_measure(
                REVIEWS,
                "fr.submitted_date_key",
                "AND p.repo_key = ?",
                "1",
                text_params(keys, false),
                &windows,
            ),
        );
        statements.push(
            split_measure(
                COMMENTS,
                "fc.created_date_key",
                "AND p.repo_key = ?",
                "1",
                text_params(keys, false),
                &windows,
            ),
        );
        assert(commands(statements@) =~= repo_measures_commands(
            texts(keys@),
            windows@,
        ));
        statements
    }

    /// The leaderboards of a repository report, for its key as the only one.
    pub fn repo_aggregations(&self, keys: &Vec<String>, period: &Period, top: u32) -> (statements: Vec<
        Statement,
    >)
        requires
            is_comparable(period@),
        ensures
            commands(statements@) == repo_aggregations_commands(
                texts(keys@),
                comparison_of(period@, self.reference_date@),
                top as int,
            ),
    {
        let windows = self.windows(period);
        let count: usize = keys.len();
        assert(texts(keys@).len() == count);
        let mut statements: Vec<Statement> = Vec::new();
        statements.push(
            leaderboard(
                "p.author_key",
                PULL_REQUESTS,
                "p.created_date_key",
                "AND p.repo_key = ?",
                text_params(keys, false),
                &windows,
                top,
            ),
        );
        statements.push(
            leaderboard(
                "p.author_key",
                PULL_REQUESTS,
                "p.created_date_key",
                &join2("AND p.repo_key = ?", AND_MERGED),
                text_params(keys, false),
                &windows,
                top,
            ),
        );
        statements.push(
            leaderboard(
                "fr.reviewer_key",
                REVIEWS,
                "fr.submitted_date_key",
                "AND p.repo_key = ?",
                text_params(keys, false),
                &windows,
                top,
            ),
        );
        statements.push(
            leaderboard(
                "fc.author_key",
                COMMENTS,
                "fc.created_date_key",
                "AND p.repo_key = ?",
                text_params(keys, false),
                &windows,
                top,
            ),
        );
        assert(commands(statements@) =~= repo_aggregations_commands(
            texts(keys@),
            windows@,
            top as int,
        ));
        statements
    }

    /// The measures of a user group, for every entity key of its members.
    pub fn user_group_measures(&self, keys: &Vec<String>, period: &Period) -> (statements: Vec<
        Statement,
    >)
        requires
            is_comparable(period@),
        ensures
            commands(statements@) == user_group_measures_commands(
                texts(keys@),
                comparison_of(period@, self.reference_date@),
            ),
    {
        let windows = self.windows(period);
        let count: usize = keys.len();
        assert(texts(keys@).len() == count);
        let mut statements: Vec<Statement> = Vec::new();
        statements.push(
            split_measure(
                PULL_REQUESTS,
                "p.created_date_key",
                &only("p.author_key", count),
                "1",
                text_params(keys, false),
                &windows,
            ),
        );
        statements.push(
            split_measure(
                PULL_REQUESTS,
                "p.created_date_key",
                &join2(&only("p.author_key", count), AND_MERGED),
                "1",
                text_params(keys, false),
                &windows,
            ),
        );
        statements.push(
            split_measure(
                REVIEWS,
                "fr.submitted_date_key",
                &only_except("fr.reviewer_key", "p.author_key", count),
                "1",
                text_params(keys, true),
                &windows,
            ),
        );
        assert(commands(statements@) =~= user_group_measures_commands(
            texts(keys@),
            windows@,
        ));
        statements
    }

    /// The measures of a repository group.
    pub fn repo_group_measures(&self, keys: &Vec<String>, period: &Period) -> (statements: Vec<
        Statement,
    >)
        requires
            is_comparable(period@),
        ensures
            commands(statements@) == repo_group_measures_commands(
                texts(keys@),
                comparison_of(period@, self.reference_date@),
            ),
    {
        let windows = self.windows(period);
        let count: usize = keys.len();
        assert(texts(keys@).len() == count);
        let mut statements: Vec<Statement> = Vec::new();
        statements.push(
            split_measure(
                PULL_REQUESTS,
                "p.created_date_key",
                &only("p.repo_key", count),
                "1",
                text_params(keys, false),
                &windows,
            ),
        );
        statements.push(
            split_measure(
                PULL_REQUESTS,
                "p.created_date_key",
                &join2(&only("p.repo_key", count), AND_MERGED),
                "1",
                text_params(keys, false),
                &windows,
            ),
        );
        statements.push(
            split_measure(
                REVIEWS,
                "fr.submitted_date_key",
                &only("p.repo_key", count),
                "1",
                text_params(keys, false),
                &windows,
            ),
        );
        statements.push(
            split_measure(
                COMMENTS,
                "fc.created_date_key",
                &only("p.repo_key", count),
                "1",
                text_params(keys, false),
                &windows,
            ),
        );
        assert(commands(statements@) =~= repo_group_measures_commands(
            texts(keys@),
            windows@,
        ));
        statements
    }

    /// The query for the check runs of a repository over the current window.
    pub fn check_runs(&self, repo_key: &str, period: &Period) -> (statement: Statement)
        requires
            is_comparable(period@),
        ensures
            statement@ == checks_command(
                repo_key@,
                comparison_of(period@, self.reference_date@),
            ),
    {
        let windows = self.windows(period);
        let current = between_text(windows.current_start.as_str(), windows.current_end.as_str());
        Statement::new(&join2(CHECKS_SQL, &current)).text(repo_key)
    }

    /// The report on a user, from the sums that its measures gave.
    pub fn user_metrics(
        &self,
        login: &str,
        keys: &Vec<String>,
        period: &Period,
        sums: &Vec<(i64, i64)>,
    ) -> (report: UserMetrics)
        requires
            is_comparable(period@),
            sums@.len() == 7,
        ensures
            ({
                let windows = comparison_of(period@, self.reference_date@);
                let key = label_key(texts(keys@), login@);
                &&& report.login@ == bare_login(key)
                &&& report.entity_type@ == namespace_in(lowercase(key))
                &&& report.entity_key@ == normalized_key(key)
                &&& report.entity_key@ == report.entity_type@ + ":"@ + report.login@
                &&& report.period_key@ == windows.period_key
                &&& report.previous_period_key@ == windows.previous_period_key
                &&& report.current_date_range.0@ == windows.current_start
                &&& report.current_date_range.1@ == windows.current_end
                &&& report.previous_date_range.0@ == windows.previous_start
                &&& report.previous_date_range.1@ == windows.previous_end
                &&& shows_user_sums(report, sums@)
            }),
    {
        let windows = self.windows(period);
        let label = first_key(keys, login);
        UserMetrics {
            login: to_bare_login(&label),
            entity_type: entity_namespace(&label),
            entity_key: primary_key(keys, login),
            period_key: windows.period_key,
            previous_period_key: windows.previous_period_key,
            current_date_range: (windows.current_start, windows.current_end),
            previous_date_range: (windows.previous_start, windows.previous_end),
            prs_opened: metric_of(&sums[0]),
            prs_merged: metric_of(&sums[1]),
            reviews_given: metric_of(&sums[2]),
            reviews_received: metric_of(&sums[3]),
            comments_given: metric_of(&sums[4]),
            lines_added: metric_of(&sums[5]),
            lines_removed: metric_of(&sums[6]),
        }
    }

    /// The report on a repository, from the sums that its measures gave.
    pub fn repo_metrics(
        &self,
        repository: &str,
        period: &Period,
        sums: &Vec<(i64, i64)>,
        checks: Option<(i64, i64)>,
    ) -> (report: RepoMetrics)
        requires
            is_comparable(period@),
            sums@.len() == 4,
        ensures
            ({
                let windows = comparison_of(period@, self.reference_date@);
                &&& report.repository@ == lowercase(repository@)
                &&& report.period_key@ == windows.period_key
                &&& report.previous_period_key@ == windows.previous_period_key
                &&& report.current_date_range.0@ == windows.current_start
                &&& report.current_date_range.1@ == windows.current_end
                &&& report.previous_date_range.0@ == windows.previous_start
                &&& report.previous_date_range.1@ == windows.previous_end
                &&& shows_repo_sums(report, sums@)
                &&& report.check_failures == checks
            }),
    {
        let windows = self.windows(period);
        RepoMetrics {
            repository: lower(repository),
            period_key: windows.period_key,
            previous_period_key: windows.previous_period_key,
            current_date_range: (windows.current_start, windows.current_end),
            previous_date_range: (windows.previous_start, windows.previous_end),
            prs_opened: metric_of(&sums[0]),
            prs_merged: metric_of(&sums[1]),
            total_reviews: metric_of(&sums[2]),
            total_comments: metric_of(&sums[3]),
            check_failures: checks,
        }
    }

    /// The report on a user group, from the sums that its measures gave. The
    /// members are counted by their entity keys.
    pub fn user_group_metrics(
        &self,
        group_name: &str,
        member_keys: &Vec<String>,
        period: &Period,
        sums: &Vec<(i64, i64)>,
    ) -> (report: GroupMetrics)
        requires
            is_comparable(period@),
            sums@.len() == 3,
        ensures
            ({
                let windows = comparison_of(period@, self.reference_date@);
                &&& report.group_name@ == group_name@
                &&& report.kind@ == "user"@
                &&& report.member_count == member_keys@.len()
                &&& report.period_key@ == windows.period_key
                &&& report.previous_period_key@ == windows.previous_period_key
                &&& shows_user_group_sums(report, sums@)
            }),
    {
        let windows = self.windows(period);
        GroupMetrics {
            group_name: copy(group_name),
            kind: copy("user"),
            member_count: member_keys.len() as u64,
            period_key: windows.period_key,
            previous_period_key: windows.previous_period_key,
            prs_opened: metric_of(&sums[0]),
            prs_merged: metric_of(&sums[1]),
            reviews_given: Some(metric_of(&sums[2])),
            total_reviews: None,
            total_comments: None,
        }
    }

    /// The report on a repository group, from the sums that its measures gave.
    pub fn repo_group_metrics(
        &self,
        group_name: &str,
        repo_keys: &Vec<String>,
        period: &Period,
        sums: &Vec<(i64, i64)>,
    ) -> (report: GroupMetrics)
        requires
            is_comparable(period@),
            sums@.len() == 4,
        ensures
            ({
                let windows = comparison_of(period@, self.reference_date@);
                &&& report.group_name@ == group_name@
                &&& report.kind@ == "repo"@
                &&& report.member_count == repo_keys@.len()
                &&& report.period_key@ == windows.period_key
                &&& report.previous_period_key@ == windows.previous_period_key
                &&& shows_repo_group_sums(report, sums@)
            }),
    {
        let windows = self.windows(period);
        GroupMetrics {
            group_name: copy(group_name),
            kind: copy("repo"),
            member_count: repo_keys.len() as u64,
            period_key: windows.period_key,
            previous_period_key: windows.previous_period_key,
            prs_opened: metric_of(&sums[0]),
            prs_merged: metric_of(&sums[1]),
            reviews_given: None,
            total_reviews: Some(metric_of(&sums[2])),
            total_comments: Some(metric_of(&sums[3])),
        }
    }
}

} // verus!
