//! What the measures and leaderboards count: the facts they read, the text that
//! asks for them, and the number that each of them is named after.

use vstd::prelude::*;
use crate::calendar::date_key;
use crate::metrics::{
    checks_command, comparison_of, current_window, is_measured, leaderboard_sql, measure_sql,
    position_of, previous_window, repo_aggregations_commands, repo_group_measures_commands,
    repo_measures_commands, shows_repo_group_sums, shows_repo_sums, shows_user_group_sums,
    shows_user_sums, user_aggregations_commands, user_group_measures_commands,
    user_measures_commands, Comparison,
};
use crate::metrics::types::{GroupMetrics, MetricWithDelta, RepoMetrics, UserMetrics};
use crate::number::{decimal, signed_decimal};
use crate::period::{elapsed, in_progress, span_before, span_key, Span};
use crate::query::{is_among, text_cells};
use crate::relation::{
    all_pass, lemma_all_pass_add, lemma_one_test, name, name_sql, test_sql, tests_sql, value_of,
    widths, Name, Row, Test, Tuple,
};
use crate::sql::{Cell, Command};
use crate::text::{joined, placeholder_list, text_less};

verus! {

// ---------------------------------------------------------------- facts

/// The facts that the metrics read.
pub ghost struct Facts {
    /// The rows of the pull requests.
    pub pull_requests: Seq<Row>,
    /// The pull requests by their keys.
    pub pulls: Map<Cell, Row>,
    /// The rows of the reviews.
    pub reviews: Seq<Row>,
    /// The rows of the comments in review threads.
    pub review_comments: Seq<Row>,
    /// The rows of the comments on pull requests and issues.
    pub issue_comments: Seq<Row>,
    /// The rows of the date dimension by their keys.
    pub dates: Map<Cell, Row>,
}

/// A comment as the metrics see it: who wrote it, on which pull request, when.
pub open spec fn comment(author: Cell, pull_request: Cell, date: Cell) -> Row {
    Map::<Seq<char>, Cell>::empty().insert("author_key"@, author).insert(
        "pr_key"@,
        pull_request,
    ).insert("created_date_key"@, date)
}

/// The comments on pull requests: those in review threads, and those of the
/// others whose parent is a pull request.
pub open spec fn comments_in(facts: Facts) -> Seq<Row> {
    facts.review_comments.map_values(
        |c: Row| comment(c["author_key"@], c["pr_key"@], c["created_date_key"@]),
    ) + facts.issue_comments.filter(
        |c: Row| c["parent_type"@] == Cell::Text("pull_request"@),
    ).map_values(|c: Row| comment(c["author_key"@], c["parent_key"@], c["created_date_key"@]))
}

/// What a measure reads.
pub ghost enum Source {
    PullRequests,
    /// The reviews with their pull requests.
    Reviews,
    /// The comments on pull requests with their pull requests.
    Comments,
}

/// The text that names what a measure reads.
pub open spec fn source_sql(source: Source) -> Seq<char> {
    match source {
        Source::PullRequests => "fact_pull_requests p"@,
        Source::Reviews =>
            "fact_reviews fr JOIN fact_pull_requests p ON p.pr_key = fr.pr_key"@,
        Source::Comments => "(SELECT author_key, pr_key, created_date_key FROM fact_review_comments
              UNION ALL
              SELECT author_key, parent_key AS pr_key, created_date_key
              FROM fact_issue_comments WHERE parent_type = 'pull_request') fc
             JOIN fact_pull_requests p ON p.pr_key = fc.pr_key"@,
    }
}

/// The rows that a measure reads.
pub open spec fn rows_read(facts: Facts, source: Source) -> Seq<Row> {
    match source {
        Source::PullRequests => facts.pull_requests,
        Source::Reviews => facts.reviews,
        Source::Comments => comments_in(facts),
    }
}

/// A row with its pull request, if it has one, and its date.
pub open spec fn tuple_for(facts: Facts, source: Source, row: Row, date: Cell) -> Tuple {
    let dated = Map::<Seq<char>, Row>::empty().insert("dd"@, facts.dates[date]);
    match source {
        Source::PullRequests => dated.insert("p"@, row),
        Source::Reviews => dated.insert("p"@, facts.pulls[row["pr_key"@]]).insert("fr"@, row),
        Source::Comments => dated.insert("p"@, facts.pulls[row["pr_key"@]]).insert("fc"@, row),
    }
}

/// The row has the pull request that it is joined with.
pub open spec fn has_pull(facts: Facts, row: Row) -> bool {
    facts.pulls.dom().contains(row["pr_key"@])
}

/// The author of the pull request that a row belongs to.
pub open spec fn author_of_pull(facts: Facts, row: Row) -> Cell {
    facts.pulls[row["pr_key"@]]["author_key"@]
}

/// The repository of the pull request that a row belongs to.
pub open spec fn repo_of_pull(facts: Facts, row: Row) -> Cell {
    facts.pulls[row["pr_key"@]]["repo_key"@]
}

// ---------------------------------------------------------------- windows

/// The key lies between two keys.
pub open spec fn lies_between(key: Cell, start: Seq<char>, end: Seq<char>) -> bool {
    key matches Cell::Text(text) && !text_less(text, start) && !text_less(end, text)
}

/// A date lies in the current window of a comparison, or in the previous one.
pub open spec fn is_inside(span: Span, reference: int, now: bool, date: Row) -> bool {
    if now {
        lies_between(
            date["date_key"@],
            date_key(current_window(span, reference).start),
            date_key(current_window(span, reference).end),
        )
    } else {
        &&& lies_between(
            date["date_key"@],
            date_key(previous_window(span, reference).start),
            date_key(previous_window(span, reference).end),
        )
        &&& in_progress(span, reference) ==> (date[position_of(span)] matches Cell::Integer(place)
            && place <= elapsed(span, reference))
    }
}

/// A date key is known and lies in the window.
pub open spec fn is_dated(facts: Facts, span: Span, reference: int, now: bool, date: Cell) -> bool {
    facts.dates.dom().contains(date) && is_inside(span, reference, now, facts.dates[date])
}

// ---------------------------------------------------------------- measures

/// A measure: what it reads, the column of its date, its conditions, and the
/// column that it sums, or none where it counts.
pub ghost struct Measure {
    pub source: Source,
    pub date: Name,
    pub tests: Seq<Test>,
    pub value: Option<Name>,
}

/// The conditions of a measure as they stand behind its window.
pub open spec fn extra_sql(tests: Seq<Test>) -> Seq<char> {
    "AND "@ + joined(tests_sql(tests), " AND "@)
}

/// The text of the value that a measure sums.
pub open spec fn value_sql(value: Option<Name>) -> Seq<char> {
    match value {
        Some(column) => name_sql(column),
        None => "1"@,
    }
}

/// The two windows of a comparison, as the database compares dates with them:
/// the period up to the reference day, and the previous one, cut back to as many
/// days while the period is in progress.
pub open spec fn compares(windows: Comparison, span: Span, reference: int) -> bool {
    &&& windows.current_start == date_key(current_window(span, reference).start)
    &&& windows.current_end == date_key(current_window(span, reference).end)
    &&& windows.previous_start == date_key(previous_window(span, reference).start)
    &&& windows.previous_end == date_key(previous_window(span, reference).end)
    &&& windows.position_filter == (if in_progress(span, reference) {
        " AND dd."@ + position_of(span) + " <= "@ + signed_decimal(elapsed(span, reference))
    } else {
        Seq::empty()
    })
    &&& windows.period_key == span_key(span)
    &&& windows.previous_period_key == span_key(span_before(span))
}

/// The text of a range of date keys.
pub open spec fn range_sql(start: Seq<char>, end: Seq<char>) -> Seq<char> {
    "dd.date_key BETWEEN '"@ + start + "' AND '"@ + end + "'"@
}

/// The text that asks for the sums of a measure over both windows.
#[verifier::opaque]
pub open spec fn sums_sql(measure: Measure, windows: Comparison) -> Seq<char> {
    let now = range_sql(windows.current_start, windows.current_end);
    let before = range_sql(windows.previous_start, windows.previous_end);
    "SELECT
                COALESCE(SUM(CASE WHEN "@ + now + "
                    THEN "@ + value_sql(measure.value) + " ELSE 0 END), 0) AS current_value,
                COALESCE(SUM(CASE WHEN "@ + before + windows.position_filter + "
                    THEN "@ + value_sql(measure.value) + " ELSE 0 END), 0) AS previous_value
             FROM "@ + source_sql(measure.source) + "
             JOIN dim_date dd ON dd.date_key = "@ + name_sql(measure.date) + "
             WHERE (("@ + now + ")
                 OR ("@ + before + "))
                 "@ + extra_sql(measure.tests)
}

/// The text that asks for the standings of a measure over both windows, by the
/// entity that it is counted for.
#[verifier::opaque]
pub open spec fn standings_sql(entity: Name, measure: Measure, windows: Comparison, top: int) -> Seq<
    char,
> {
    let now = range_sql(windows.current_start, windows.current_end);
    let before = range_sql(windows.previous_start, windows.previous_end);
    "WITH counts AS (
                SELECT "@ + name_sql(entity) + " AS entity_key,
                    SUM(CASE WHEN "@ + now + " THEN 1 ELSE 0 END) AS current_count,
                    SUM(CASE WHEN "@ + before + windows.position_filter
        + " THEN 1 ELSE 0 END) AS previous_count
                FROM "@ + source_sql(measure.source) + "
                JOIN dim_date dd ON dd.date_key = "@ + name_sql(measure.date) + "
                WHERE (("@ + now + ")
                    OR ("@ + before + "))
                    "@ + extra_sql(measure.tests) + "
                GROUP BY entity_key
             ),
             ranked AS (
                SELECT entity_key, current_count, previous_count,
                    ROW_NUMBER() OVER (ORDER BY current_count DESC, entity_key) AS rank_current,
                    CASE WHEN previous_count > 0
                        THEN ROW_NUMBER() OVER (ORDER BY previous_count DESC, entity_key)
                        ELSE NULL END AS rank_previous
                FROM counts
             )
             SELECT r.entity_key, COALESCE(e.name, dr.name),
                    r.current_count, r.previous_count, r.rank_current, r.rank_previous
             FROM ranked r
             LEFT JOIN dim_entities e ON e.entity_key = r.entity_key
             LEFT JOIN dim_repositories dr ON dr.repo_key = r.entity_key
             WHERE r.current_count > 0
             ORDER BY r.rank_current
             LIMIT "@ + decimal(top as nat)
}

/// The command asks for the sums of a measure.
pub open spec fn asks_for(
    command: Command,
    measure: Measure,
    params: Seq<Cell>,
    windows: Comparison,
) -> bool {
    &&& command.sql == sums_sql(measure, windows)
    &&& command.params == params
    &&& params.len() == widths(measure.tests)
}

/// The command asks for the standings of a measure.
pub open spec fn asks_for_standings(
    command: Command,
    entity: Name,
    measure: Measure,
    params: Seq<Cell>,
    windows: Comparison,
    top: int,
) -> bool {
    &&& command.sql == standings_sql(entity, measure, windows, top)
    &&& command.params == params
    &&& params.len() == widths(measure.tests)
}

/// The date of a row, in the measure's own column.
pub open spec fn date_in(measure: Measure, row: Row) -> Cell {
    row[measure.date.column]
}

/// The measure counts a row: it has its pull request, its date lies in the
/// window, and it passes the conditions.
pub open spec fn is_counted(
    measure: Measure,
    params: Seq<Cell>,
    facts: Facts,
    span: Span,
    reference: int,
    now: bool,
    row: Row,
) -> bool {
    let date = date_in(measure, row);
    &&& measure.source is PullRequests || has_pull(facts, row)
    &&& is_dated(facts, span, reference, now, date)
    &&& all_pass(measure.tests, params, tuple_for(facts, measure.source, row, date))
}

/// The number in a column of a row.
pub open spec fn amount(row: Row, column: Seq<char>) -> int {
    match row[column] {
        Cell::Integer(n) => n,
        _ => 0,
    }
}

/// The sum that a measure yields over some of its rows.
pub open spec fn total(
    measure: Measure,
    params: Seq<Cell>,
    facts: Facts,
    span: Span,
    reference: int,
    now: bool,
    rows: Seq<Row>,
) -> int
    decreases rows.len(),
{
    if rows.len() == 0 {
        0
    } else {
        total(measure, params, facts, span, reference, now, rows.drop_last()) + (if is_counted(
            measure,
            params,
            facts,
            span,
            reference,
            now,
            rows.last(),
        ) {
            match measure.value {
                Some(column) => amount(rows.last(), column.column),
                None => 1,
            }
        } else {
            0
        })
    }
}

/// The sum that a measure yields in a window.
pub open spec fn yields(
    measure: Measure,
    params: Seq<Cell>,
    facts: Facts,
    span: Span,
    reference: int,
    now: bool,
) -> int {
    total(measure, params, facts, span, reference, now, rows_read(facts, measure.source))
}

/// The total of a column over rows.
pub open spec fn tally(rows: Seq<Row>, column: Seq<char>) -> int
    decreases rows.len(),
{
    if rows.len() == 0 {
        0
    } else {
        tally(rows.drop_last(), column) + amount(rows.last(), column)
    }
}

/// A measure that counts yields the number of rows that it counts.
proof fn lemma_counts(
    measure: Measure,
    params: Seq<Cell>,
    facts: Facts,
    span: Span,
    reference: int,
    now: bool,
    rows: Seq<Row>,
    wanted: spec_fn(Row) -> bool,
)
    requires
        measure.value is None,
        forall|row: Row| #[trigger]
            wanted(row) <==> is_counted(measure, params, facts, span, reference, now, row),
    ensures
        total(measure, params, facts, span, reference, now, rows) == rows.filter(wanted).len(),
    decreases rows.len(),
{
    reveal(Seq::filter);
    if rows.len() > 0 {
        lemma_counts(measure, params, facts, span, reference, now, rows.drop_last(), wanted);
        assert(wanted(rows.last()) <==> is_counted(
            measure,
            params,
            facts,
            span,
            reference,
            now,
            rows.last(),
        ));
    }
}

/// A measure that sums yields the total of its column over the rows that it
/// counts.
proof fn lemma_sums(
    measure: Measure,
    params: Seq<Cell>,
    facts: Facts,
    span: Span,
    reference: int,
    now: bool,
    rows: Seq<Row>,
    wanted: spec_fn(Row) -> bool,
)
    requires
        measure.value is Some,
        forall|row: Row| #[trigger]
            wanted(row) <==> is_counted(measure, params, facts, span, reference, now, row),
    ensures
        total(measure, params, facts, span, reference, now, rows) == tally(
            rows.filter(wanted),
            measure.value->Some_0.column,
        ),
    decreases rows.len(),
{
    reveal(Seq::filter);
    if rows.len() > 0 {
        let column = measure.value->Some_0.column;
        let kept = rows.drop_last().filter(wanted);
        lemma_sums(measure, params, facts, span, reference, now, rows.drop_last(), wanted);
        assert(wanted(rows.last()) <==> is_counted(
            measure,
            params,
            facts,
            span,
            reference,
            now,
            rows.last(),
        ));
        if wanted(rows.last()) {
            assert(rows.filter(wanted) =~= kept.push(rows.last()));
            assert(kept.push(rows.last()).drop_last() =~= kept);
        }
    }
}

// ---------------------------------------------------------------- conditions

/// The value is of somebody who is none of the texts.
pub open spec fn is_other(value: Cell, keys: Seq<Seq<char>>) -> bool {
    value != Cell::Null && !is_among(value, keys)
}

/// The conditions that a column holds one of the keys.
pub open spec fn only_tests(column: Name, count: nat) -> Seq<Test> {
    seq![Test::OneOf(column, count)]
}

/// The conditions that a column holds one of the keys and another one none.
pub open spec fn except_tests(column: Name, other: Name, count: nat) -> Seq<Test> {
    seq![Test::OneOf(column, count), Test::NoneOf(other, count)]
}

/// The same conditions on merged pull requests.
pub open spec fn merged_tests(column: Name, count: nat) -> Seq<Test> {
    seq![Test::OneOf(column, count), Test::Reads(name("p"@, "state"@), "MERGED"@)]
}

/// The condition that a pull request is of one repository.
pub open spec fn repo_tests() -> Seq<Test> {
    seq![Test::Equals(name("p"@, "repo_key"@))]
}

/// The same condition on merged pull requests.
pub open spec fn merged_repo_tests() -> Seq<Test> {
    seq![Test::Equals(name("p"@, "repo_key"@)), Test::Reads(name("p"@, "state"@), "MERGED"@)]
}

proof fn lemma_among(value: Cell, keys: Seq<Seq<char>>)
    ensures
        value != Cell::Null && text_cells(keys).contains(value) <==> is_among(value, keys),
{
    let params = text_cells(keys);
    if is_among(value, keys) {
        let i = choose|i: int| 0 <= i < keys.len() && value == Cell::Text(#[trigger] keys[i]);
        assert(params[i] == value);
    }
    if params.contains(value) {
        let i = choose|i: int| 0 <= i < params.len() && params[i] == value;
        assert(value == Cell::Text(keys[i]));
    }
}

proof fn lemma_only(column: Name, keys: Seq<Seq<char>>, tuple: Tuple)
    ensures
        widths(only_tests(column, keys.len())) == text_cells(keys).len(),
        all_pass(only_tests(column, keys.len()), text_cells(keys), tuple) <==> is_among(
            value_of(tuple, column),
            keys,
        ),
{
    lemma_one_test(Test::OneOf(column, keys.len()), text_cells(keys), tuple);
    lemma_among(value_of(tuple, column), keys);
}

proof fn lemma_except(column: Name, other: Name, keys: Seq<Seq<char>>, tuple: Tuple)
    ensures
        widths(except_tests(column, other, keys.len())) == 2 * keys.len(),
        all_pass(
            except_tests(column, other, keys.len()),
            text_cells(keys) + text_cells(keys),
            tuple,
        ) <==> is_among(value_of(tuple, column), keys) && is_other(value_of(tuple, other), keys),
{
    let second = seq![Test::NoneOf(other, keys.len())];
    lemma_only(column, keys, tuple);
    lemma_one_test(Test::NoneOf(other, keys.len()), text_cells(keys), tuple);
    lemma_among(value_of(tuple, other), keys);
    lemma_all_pass_add(
        only_tests(column, keys.len()),
        second,
        text_cells(keys),
        text_cells(keys),
        tuple,
    );
    assert(except_tests(column, other, keys.len()) =~= only_tests(column, keys.len()) + second);
}

proof fn lemma_merged(column: Name, keys: Seq<Seq<char>>, tuple: Tuple)
    ensures
        widths(merged_tests(column, keys.len())) == keys.len(),
        all_pass(merged_tests(column, keys.len()), text_cells(keys), tuple) <==> is_among(
            value_of(tuple, column),
            keys,
        ) && tuple["p"@]["state"@] == Cell::Text("MERGED"@),
{
    let state = Test::Reads(name("p"@, "state"@), "MERGED"@);
    lemma_only(column, keys, tuple);
    lemma_one_test(state, Seq::empty(), tuple);
    lemma_all_pass_add(
        only_tests(column, keys.len()),
        seq![state],
        text_cells(keys),
        Seq::empty(),
        tuple,
    );
    assert(merged_tests(column, keys.len()) =~= only_tests(column, keys.len()) + seq![state]);
    assert(text_cells(keys) + Seq::empty() =~= text_cells(keys));
}

proof fn lemma_repo(repo: Seq<char>, tuple: Tuple)
    ensures
        widths(repo_tests()) == 1,
        widths(merged_repo_tests()) == 1,
        all_pass(repo_tests(), seq![Cell::Text(repo)], tuple) <==> tuple["p"@]["repo_key"@]
            == Cell::Text(repo),
        all_pass(merged_repo_tests(), seq![Cell::Text(repo)], tuple) <==> tuple["p"@]["repo_key"@]
            == Cell::Text(repo) && tuple["p"@]["state"@] == Cell::Text("MERGED"@),
{
    let state = Test::Reads(name("p"@, "state"@), "MERGED"@);
    let params = seq![Cell::Text(repo)];
    lemma_one_test(Test::Equals(name("p"@, "repo_key"@)), params, tuple);
    lemma_one_test(state, Seq::empty(), tuple);
    lemma_all_pass_add(repo_tests(), seq![state], params, Seq::empty(), tuple);
    assert(merged_repo_tests() =~= repo_tests() + seq![state]);
    assert(params + Seq::empty() =~= params);
}

/// The aliases tell the joined rows apart.
proof fn lemma_tuples(facts: Facts, row: Row, date: Cell)
    ensures
        tuple_for(facts, Source::PullRequests, row, date)["p"@] == row,
        tuple_for(facts, Source::Reviews, row, date)["p"@] == facts.pulls[row["pr_key"@]],
        tuple_for(facts, Source::Reviews, row, date)["fr"@] == row,
        tuple_for(facts, Source::Comments, row, date)["p"@] == facts.pulls[row["pr_key"@]],
        tuple_for(facts, Source::Comments, row, date)["fc"@] == row,
{
    reveal_strlit("p");
    reveal_strlit("fr");
    reveal_strlit("fc");
    reveal_strlit("dd");
    assert("p"@.len() == 1 && "fr"@.len() == 2 && "fc"@.len() == 2 && "dd"@.len() == 2);
    assert("fr"@[1] == 'r' && "fc"@[1] == 'c' && "fr"@[0] == 'f' && "dd"@[0] == 'd');
}

/// The names of the columns.
proof fn lemma_names()
    ensures
        name_sql(name("p"@, "author_key"@)) == "p.author_key"@,
        name_sql(name("p"@, "repo_key"@)) == "p.repo_key"@,
        name_sql(name("p"@, "created_date_key"@)) == "p.created_date_key"@,
        name_sql(name("p"@, "additions"@)) == "p.additions"@,
        name_sql(name("p"@, "deletions"@)) == "p.deletions"@,
        name_sql(name("fr"@, "reviewer_key"@)) == "fr.reviewer_key"@,
        name_sql(name("fr"@, "submitted_date_key"@)) == "fr.submitted_date_key"@,
        name_sql(name("fc"@, "author_key"@)) == "fc.author_key"@,
        name_sql(name("fc"@, "created_date_key"@)) == "fc.created_date_key"@,
        name_sql(name("p"@, "state"@)) == "p.state"@,
{
    reveal_strlit(".");
    reveal_strlit("p");
    reveal_strlit("fr");
    reveal_strlit("fc");
    reveal_strlit("author_key");
    reveal_strlit("repo_key");
    reveal_strlit("created_date_key");
    reveal_strlit("additions");
    reveal_strlit("deletions");
    reveal_strlit("reviewer_key");
    reveal_strlit("submitted_date_key");
    reveal_strlit("state");
    reveal_strlit("p.author_key");
    reveal_strlit("p.repo_key");
    reveal_strlit("p.created_date_key");
    reveal_strlit("p.additions");
    reveal_strlit("p.deletions");
    reveal_strlit("p.state");
    reveal_strlit("fr.reviewer_key");
    reveal_strlit("fr.submitted_date_key");
    reveal_strlit("fc.author_key");
    reveal_strlit("fc.created_date_key");
    assert(name_sql(name("p"@, "author_key"@)) =~= "p.author_key"@);
    assert(name_sql(name("p"@, "repo_key"@)) =~= "p.repo_key"@);
    assert(name_sql(name("p"@, "created_date_key"@)) =~= "p.created_date_key"@);
    assert(name_sql(name("p"@, "additions"@)) =~= "p.additions"@);
    assert(name_sql(name("p"@, "deletions"@)) =~= "p.deletions"@);
    assert(name_sql(name("p"@, "state"@)) =~= "p.state"@);
    assert(name_sql(name("fr"@, "reviewer_key"@)) =~= "fr.reviewer_key"@);
    assert(name_sql(name("fr"@, "submitted_date_key"@)) =~= "fr.submitted_date_key"@);
    assert(name_sql(name("fc"@, "author_key"@)) =~= "fc.author_key"@);
    assert(name_sql(name("fc"@, "created_date_key"@)) =~= "fc.created_date_key"@);
}

/// The texts of one and of two conditions.
proof fn lemma_extras(first: Test, second: Test)
    ensures
        extra_sql(seq![first]) == "AND "@ + test_sql(first),
        extra_sql(seq![first, second]) == "AND "@ + test_sql(first) + " AND "@ + test_sql(second),
{
    let one = tests_sql(seq![first]);
    let two = tests_sql(seq![first, second]);
    assert(one =~= seq![test_sql(first)]);
    assert(two =~= seq![test_sql(first), test_sql(second)]);
    assert(two.drop_last() =~= one);
    assert(joined(one, " AND "@) == test_sql(first));
    assert(joined(two, " AND "@) == test_sql(first) + " AND "@ + test_sql(second));
    assert("AND "@ + (test_sql(first) + " AND "@ + test_sql(second)) =~= "AND "@ + test_sql(first)
        + " AND "@ + test_sql(second));
}

/// The text of the conditions as the measures write them.
proof fn lemma_extra_texts(column: Name, other: Name, count: nat)
    ensures
        extra_sql(only_tests(column, count)) == crate::metrics::only_sql(name_sql(column), count),
        extra_sql(except_tests(column, other, count)) == crate::metrics::only_except_sql(
            name_sql(column),
            name_sql(other),
            count,
        ),
        extra_sql(merged_tests(column, count)) == crate::metrics::only_sql(name_sql(column), count)
            + crate::metrics::AND_MERGED@,
        extra_sql(repo_tests()) == "AND p.repo_key = ?"@,
        extra_sql(merged_repo_tests()) == "AND p.repo_key = ?"@ + crate::metrics::AND_MERGED@,
{
    lemma_names();
    let first = Test::OneOf(column, count);
    let state = Test::Reads(name("p"@, "state"@), "MERGED"@);
    let repo = Test::Equals(name("p"@, "repo_key"@));
    lemma_extras(first, Test::NoneOf(other, count));
    lemma_extras(first, state);
    lemma_extras(repo, state);
    let marks = placeholder_list(count);
    assert("AND "@ + test_sql(first) =~= crate::metrics::only_sql(name_sql(column), count));
    assert("AND "@ + test_sql(first) + " AND "@ + test_sql(Test::NoneOf(other, count))
        =~= crate::metrics::only_except_sql(name_sql(column), name_sql(other), count));
    assert(" AND "@ + test_sql(state) =~= crate::metrics::AND_MERGED@) by {
        reveal_strlit(" AND ");
        reveal_strlit("p.state");
        reveal_strlit(" = '");
        reveal_strlit("MERGED");
        reveal_strlit("'");
        reveal_strlit(" AND p.state = 'MERGED'");
    }
    assert("AND "@ + test_sql(first) + " AND "@ + test_sql(state) =~= "AND "@ + test_sql(first) + (
    " AND "@ + test_sql(state)));
    assert("AND "@ + test_sql(repo) =~= "AND p.repo_key = ?"@) by {
        reveal_strlit("AND ");
        reveal_strlit("p.repo_key");
        reveal_strlit(" = ?");
        reveal_strlit("AND p.repo_key = ?");
    }
    assert("AND "@ + test_sql(repo) + " AND "@ + test_sql(state) =~= "AND "@ + test_sql(repo) + (
    " AND "@ + test_sql(state)));
}

/// The texts of a measure and of its standings are what the engine writes.
proof fn lemma_measure_texts(entity: Name, measure: Measure, windows: Comparison, top: int)
    ensures
        sums_sql(measure, windows) == measure_sql(
            source_sql(measure.source),
            name_sql(measure.date),
            extra_sql(measure.tests),
            value_sql(measure.value),
            windows,
        ),
        standings_sql(entity, measure, windows, top) == leaderboard_sql(
            name_sql(entity),
            source_sql(measure.source),
            name_sql(measure.date),
            extra_sql(measure.tests),
            windows,
            top,
        ),
{
    reveal(measure_sql);
    reveal(leaderboard_sql);
    reveal(sums_sql);
    reveal(standings_sql);
}

// ---------------------------------------------------------------- measures, named

/// What a row holds in a column.
pub open spec fn in_column(column: Seq<char>) -> spec_fn(Row) -> Cell {
    |row: Row| row[column]
}

/// Who wrote the pull request of a row.
pub open spec fn pull_author(facts: Facts) -> spec_fn(Row) -> Cell {
    |row: Row| author_of_pull(facts, row)
}

/// A window of a comparison.
pub ghost struct Frame {
    pub span: Span,
    pub reference: int,
    /// The current window; else the previous one.
    pub now: bool,
}

/// The date key lies in the window.
pub open spec fn dated(facts: Facts, frame: Frame, date: Cell) -> bool {
    is_dated(facts, frame.span, frame.reference, frame.now, date)
}

/// The pull requests created in the window whose column holds one of the keys.
pub open spec fn pulls_of(facts: Facts, frame: Frame, column: Seq<char>, keys: Seq<Seq<char>>) -> spec_fn(
    Row,
) -> bool {
    |p: Row| is_among(p[column], keys) && dated(facts, frame, p["created_date_key"@])
}

/// Those of them that are merged.
pub open spec fn merged_pulls_of(
    facts: Facts,
    frame: Frame,
    column: Seq<char>,
    keys: Seq<Seq<char>>,
) -> spec_fn(Row) -> bool {
    |p: Row|
        {
            &&& is_among(p[column], keys)
            &&& p["state"@] == Cell::Text("MERGED"@)
            &&& dated(facts, frame, p["created_date_key"@])
        }
}

/// The reviews submitted in the window by one of the people on the pull request
/// of somebody else.
pub open spec fn reviews_given(facts: Facts, frame: Frame, people: Seq<Seq<char>>) -> spec_fn(
    Row,
) -> bool {
    |r: Row|
        {
            &&& has_pull(facts, r)
            &&& is_among(r["reviewer_key"@], people)
            &&& is_other(author_of_pull(facts, r), people)
            &&& dated(facts, frame, r["submitted_date_key"@])
        }
}

/// The reviews submitted in the window by somebody else on a pull request of one
/// of the people.
pub open spec fn reviews_received(facts: Facts, frame: Frame, people: Seq<Seq<char>>) -> spec_fn(
    Row,
) -> bool {
    |r: Row|
        {
            &&& has_pull(facts, r)
            &&& is_among(author_of_pull(facts, r), people)
            &&& is_other(r["reviewer_key"@], people)
            &&& dated(facts, frame, r["submitted_date_key"@])
        }
}

/// The comments written in the window by one of the people on the pull request
/// of somebody else.
pub open spec fn comments_given(facts: Facts, frame: Frame, people: Seq<Seq<char>>) -> spec_fn(
    Row,
) -> bool {
    |c: Row|
        {
            &&& has_pull(facts, c)
            &&& is_among(c["author_key"@], people)
            &&& is_other(author_of_pull(facts, c), people)
            &&& dated(facts, frame, c["created_date_key"@])
        }
}

/// The reviews submitted in the window on pull requests of the repositories.
pub open spec fn reviews_within(facts: Facts, frame: Frame, repos: Seq<Seq<char>>) -> spec_fn(
    Row,
) -> bool {
    |r: Row|
        {
            &&& has_pull(facts, r)
            &&& is_among(repo_of_pull(facts, r), repos)
            &&& dated(facts, frame, r["submitted_date_key"@])
        }
}

/// The comments written in the window on pull requests of the repositories.
pub open spec fn comments_within(facts: Facts, frame: Frame, repos: Seq<Seq<char>>) -> spec_fn(
    Row,
) -> bool {
    |c: Row|
        {
            &&& has_pull(facts, c)
            &&& is_among(repo_of_pull(facts, c), repos)
            &&& dated(facts, frame, c["created_date_key"@])
        }
}

/// A measure of pull requests by their day of creation.
pub open spec fn of_pulls(tests: Seq<Test>, value: Option<Name>) -> Measure {
    Measure {
        source: Source::PullRequests,
        date: name("p"@, "created_date_key"@),
        tests,
        value,
    }
}

/// A measure of reviews by their day of submission.
pub open spec fn of_reviews(tests: Seq<Test>) -> Measure {
    Measure {
        source: Source::Reviews,
        date: name("fr"@, "submitted_date_key"@),
        tests,
        value: None,
    }
}

/// A measure of comments by their day of creation.
pub open spec fn of_comments(tests: Seq<Test>) -> Measure {
    Measure {
        source: Source::Comments,
        date: name("fc"@, "created_date_key"@),
        tests,
        value: None,
    }
}

/// The measure counts the wanted rows of a window and no others.
pub open spec fn picks(
    measure: Measure,
    params: Seq<Cell>,
    facts: Facts,
    frame: Frame,
    wanted: spec_fn(Row) -> bool,
) -> bool {
    forall|row: Row| #[trigger]
        wanted(row) <==> is_counted(
            measure,
            params,
            facts,
            frame.span,
            frame.reference,
            frame.now,
            row,
        )
}

/// The command asks for a measure whose sum, in every window of the comparison,
/// is the number of the wanted rows.
pub open spec fn counts_rows(
    command: Command,
    measure: Measure,
    params: Seq<Cell>,
    facts: Facts,
    frame: Frame,
    wanted: spec_fn(Row) -> bool,
) -> bool {
    &&& asks_for(command, measure, params, comparison_of(frame.span, frame.reference))
    &&& yields(measure, params, facts, frame.span, frame.reference, frame.now) == rows_read(
        facts,
        measure.source,
    ).filter(wanted).len()
}

/// The command asks for a measure whose sum is the total of a column over the
/// wanted rows.
pub open spec fn sums_rows(
    command: Command,
    measure: Measure,
    params: Seq<Cell>,
    facts: Facts,
    frame: Frame,
    wanted: spec_fn(Row) -> bool,
    column: Seq<char>,
) -> bool {
    &&& asks_for(command, measure, params, comparison_of(frame.span, frame.reference))
    &&& yields(measure, params, facts, frame.span, frame.reference, frame.now) == tally(
        rows_read(facts, measure.source).filter(wanted),
        column,
    )
}

/// The number of rows that a measure counts for an entity.
pub open spec fn standing(
    entity: Name,
    measure: Measure,
    params: Seq<Cell>,
    facts: Facts,
    frame: Frame,
    who: Cell,
) -> nat {
    rows_read(facts, measure.source).filter(
        |row: Row|
            is_counted(
                measure,
                params,
                facts,
                frame.span,
                frame.reference,
                frame.now,
                row,
            ) && value_of(
                tuple_for(facts, measure.source, row, date_in(measure, row)),
                entity,
            ) == who,
    ).len()
}

/// The command asks for standings in which an entity has the number of the
/// wanted rows that are its own.
pub open spec fn ranks_rows(
    command: Command,
    entity: Name,
    measure: Measure,
    params: Seq<Cell>,
    facts: Facts,
    frame: Frame,
    top: int,
    wanted: spec_fn(Row) -> bool,
    owner: spec_fn(Row) -> Cell,
) -> bool {
    &&& asks_for_standings(
        command,
        entity,
        measure,
        params,
        comparison_of(frame.span, frame.reference),
        top,
    )
    &&& forall|who: Cell| #[trigger]
        standing(entity, measure, params, facts, frame, who) == rows_read(
            facts,
            measure.source,
        ).filter(|row: Row| wanted(row) && owner(row) == who).len()
}

proof fn lemma_ranks(
    entity: Name,
    measure: Measure,
    params: Seq<Cell>,
    facts: Facts,
    frame: Frame,
    wanted: spec_fn(Row) -> bool,
    owner: spec_fn(Row) -> Cell,
)
    requires
        picks(measure, params, facts, frame, wanted),
        forall|row: Row| #[trigger]
            owner(row) == value_of(
                tuple_for(facts, measure.source, row, date_in(measure, row)),
                entity,
            ),
    ensures
        forall|who: Cell| #[trigger]
            standing(entity, measure, params, facts, frame, who) == rows_read(
                facts,
                measure.source,
            ).filter(|row: Row| wanted(row) && owner(row) == who).len(),
{
    assert forall|who: Cell| #[trigger]
        standing(entity, measure, params, facts, frame, who) == rows_read(
            facts,
            measure.source,
        ).filter(|row: Row| wanted(row) && owner(row) == who).len() by {
        let counted = |row: Row|
            is_counted(
                measure,
                params,
                facts,
                frame.span,
                frame.reference,
                frame.now,
                row,
            ) && value_of(
                tuple_for(facts, measure.source, row, date_in(measure, row)),
                entity,
            ) == who;
        let own = |row: Row| wanted(row) && owner(row) == who;
        assert forall|row: Row| #[trigger] counted(row) == own(row) by {
            assert(wanted(row) <==> is_counted(
                measure,
                params,
                facts,
                frame.span,
                frame.reference,
                frame.now,
                row,
            ));
            assert(owner(row) == owner(row));
        }
        assert(counted =~= own);
    }
}

proof fn lemma_pulls(column: Seq<char>, value: Option<Name>, facts: Facts, frame: Frame, keys: Seq<Seq<char>>)
    ensures
        picks(
            of_pulls(only_tests(name("p"@, column), keys.len()), value),
            text_cells(keys),
            facts,
            frame,
            pulls_of(facts, frame, column, keys),
        ),
{
    let measure = of_pulls(only_tests(name("p"@, column), keys.len()), value);
    let params = text_cells(keys);
    let wanted = pulls_of(facts, frame, column, keys);
    assert forall|row: Row| #[trigger]
        wanted(row) <==> is_counted(
            measure,
            params,
            facts,
            frame.span,
            frame.reference,
            frame.now,
            row,
        ) by {
        let date = date_in(measure, row);
        lemma_tuples(facts, row, date);
        lemma_only(name("p"@, column), keys, tuple_for(facts, measure.source, row, date));
    }
}

proof fn lemma_merged_pulls(column: Seq<char>, facts: Facts, frame: Frame, keys: Seq<Seq<char>>)
    ensures
        picks(
            of_pulls(merged_tests(name("p"@, column), keys.len()), None),
            text_cells(keys),
            facts,
            frame,
            merged_pulls_of(facts, frame, column, keys),
        ),
{
    let measure = of_pulls(merged_tests(name("p"@, column), keys.len()), None);
    let params = text_cells(keys);
    let wanted = merged_pulls_of(facts, frame, column, keys);
    assert forall|row: Row| #[trigger]
        wanted(row) <==> is_counted(
            measure,
            params,
            facts,
            frame.span,
            frame.reference,
            frame.now,
            row,
        ) by {
        let date = date_in(measure, row);
        lemma_tuples(facts, row, date);
        lemma_merged(name("p"@, column), keys, tuple_for(facts, measure.source, row, date));
    }
}

proof fn lemma_given(facts: Facts, frame: Frame, keys: Seq<Seq<char>>)
    ensures
        picks(
            of_reviews(except_tests(name("fr"@, "reviewer_key"@), name("p"@, "author_key"@), keys.len())),
            text_cells(keys) + text_cells(keys),
            facts,
            frame,
            reviews_given(facts, frame, keys),
        ),
{
    let measure = of_reviews(except_tests(name("fr"@, "reviewer_key"@), name("p"@, "author_key"@), keys.len()));
    let params = text_cells(keys) + text_cells(keys);
    let wanted = reviews_given(facts, frame, keys);
    assert forall|row: Row| #[trigger]
        wanted(row) <==> is_counted(
            measure,
            params,
            facts,
            frame.span,
            frame.reference,
            frame.now,
            row,
        ) by {
        let date = date_in(measure, row);
        lemma_tuples(facts, row, date);
        lemma_except(name("fr"@, "reviewer_key"@), name("p"@, "author_key"@), keys, tuple_for(facts, measure.source, row, date));
    }
}

proof fn lemma_received(facts: Facts, frame: Frame, keys: Seq<Seq<char>>)
    ensures
        picks(
            of_reviews(except_tests(name("p"@, "author_key"@), name("fr"@, "reviewer_key"@), keys.len())),
            text_cells(keys) + text_cells(keys),
            facts,
            frame,
            reviews_received(facts, frame, keys),
        ),
{
    let measure = of_reviews(except_tests(name("p"@, "author_key"@), name("fr"@, "reviewer_key"@), keys.len()));
    let params = text_cells(keys) + text_cells(keys);
    let wanted = reviews_received(facts, frame, keys);
    assert forall|row: Row| #[trigger]
        wanted(row) <==> is_counted(
            measure,
            params,
            facts,
            frame.span,
            frame.reference,
            frame.now,
            row,
        ) by {
        let date = date_in(measure, row);
        lemma_tuples(facts, row, date);
        lemma_except(name("p"@, "author_key"@), name("fr"@, "reviewer_key"@), keys, tuple_for(facts, measure.source, row, date));
    }
}

proof fn lemma_comments_given(facts: Facts, frame: Frame, keys: Seq<Seq<char>>)
    ensures
        picks(
            of_comments(except_tests(name("fc"@, "author_key"@), name("p"@, "author_key"@), keys.len())),
            text_cells(keys) + text_cells(keys),
            facts,
            frame,
            comments_given(facts, frame, keys),
        ),
{
    let measure = of_comments(except_tests(name("fc"@, "author_key"@), name("p"@, "author_key"@), keys.len()));
    let params = text_cells(keys) + text_cells(keys);
    let wanted = comments_given(facts, frame, keys);
    assert forall|row: Row| #[trigger]
        wanted(row) <==> is_counted(
            measure,
            params,
            facts,
            frame.span,
            frame.reference,
            frame.now,
            row,
        ) by {
        let date = date_in(measure, row);
        lemma_tuples(facts, row, date);
        lemma_except(name("fc"@, "author_key"@), name("p"@, "author_key"@), keys, tuple_for(facts, measure.source, row, date));
    }
}

proof fn lemma_reviews_within(facts: Facts, frame: Frame, keys: Seq<Seq<char>>)
    ensures
        picks(
            of_reviews(only_tests(name("p"@, "repo_key"@), keys.len())),
            text_cells(keys),
            facts,
            frame,
            reviews_within(facts, frame, keys),
        ),
{
    let measure = of_reviews(only_tests(name("p"@, "repo_key"@), keys.len()));
    let params = text_cells(keys);
    let wanted = reviews_within(facts, frame, keys);
    assert forall|row: Row| #[trigger]
        wanted(row) <==> is_counted(
            measure,
            params,
            facts,
            frame.span,
            frame.reference,
            frame.now,
            row,
        ) by {
        let date = date_in(measure, row);
        lemma_tuples(facts, row, date);
        lemma_only(name("p"@, "repo_key"@), keys, tuple_for(facts, measure.source, row, date));
    }
}

proof fn lemma_comments_within(facts: Facts, frame: Frame, keys: Seq<Seq<char>>)
    ensures
        picks(
            of_comments(only_tests(name("p"@, "repo_key"@), keys.len())),
            text_cells(keys),
            facts,
            frame,
            comments_within(facts, frame, keys),
        ),
{
    let measure = of_comments(only_tests(name("p"@, "repo_key"@), keys.len()));
    let params = text_cells(keys);
    let wanted = comments_within(facts, frame, keys);
    assert forall|row: Row| #[trigger]
        wanted(row) <==> is_counted(
            measure,
            params,
            facts,
            frame.span,
            frame.reference,
            frame.now,
            row,
        ) by {
        let date = date_in(measure, row);
        lemma_tuples(facts, row, date);
        lemma_only(name("p"@, "repo_key"@), keys, tuple_for(facts, measure.source, row, date));
    }
}

/// To be among one text is to be that text.
proof fn lemma_single(value: Cell, text: Seq<char>)
    ensures
        is_among(value, seq![text]) <==> value == Cell::Text(text),
{
    if value == Cell::Text(text) {
        assert(seq![text][0] == text);
    }
}

proof fn lemma_repo_pulls(facts: Facts, frame: Frame, repo: Seq<char>)
    ensures
        picks(
            of_pulls(repo_tests(), None),
            seq![Cell::Text(repo)],
            facts,
            frame,
            pulls_of(facts, frame, "repo_key"@, seq![repo]),
        ),
{
    let measure = of_pulls(repo_tests(), None);
    let params = seq![Cell::Text(repo)];
    let wanted = pulls_of(facts, frame, "repo_key"@, seq![repo]);
    assert forall|row: Row| #[trigger]
        wanted(row) <==> is_counted(
            measure,
            params,
            facts,
            frame.span,
            frame.reference,
            frame.now,
            row,
        ) by {
        let date = date_in(measure, row);
        lemma_tuples(facts, row, date);
        lemma_repo(repo, tuple_for(facts, measure.source, row, date));
        lemma_single(row["repo_key"@], repo);
    }
}

proof fn lemma_repo_merged_pulls(facts: Facts, frame: Frame, repo: Seq<char>)
    ensures
        picks(
            of_pulls(merged_repo_tests(), None),
            seq![Cell::Text(repo)],
            facts,
            frame,
            merged_pulls_of(facts, frame, "repo_key"@, seq![repo]),
        ),
{
    let measure = of_pulls(merged_repo_tests(), None);
    let params = seq![Cell::Text(repo)];
    let wanted = merged_pulls_of(facts, frame, "repo_key"@, seq![repo]);
    assert forall|row: Row| #[trigger]
        wanted(row) <==> is_counted(
            measure,
            params,
            facts,
            frame.span,
            frame.reference,
            frame.now,
            row,
        ) by {
        let date = date_in(measure, row);
        lemma_tuples(facts, row, date);
        lemma_repo(repo, tuple_for(facts, measure.source, row, date));
        lemma_single(row["repo_key"@], repo);
    }
}

proof fn lemma_repo_reviews(facts: Facts, frame: Frame, repo: Seq<char>)
    ensures
        picks(
            of_reviews(repo_tests()),
            seq![Cell::Text(repo)],
            facts,
            frame,
            reviews_within(facts, frame, seq![repo]),
        ),
{
    let measure = of_reviews(repo_tests());
    let params = seq![Cell::Text(repo)];
    let wanted = reviews_within(facts, frame, seq![repo]);
    assert forall|row: Row| #[trigger]
        wanted(row) <==> is_counted(
            measure,
            params,
            facts,
            frame.span,
            frame.reference,
            frame.now,
            row,
        ) by {
        let date = date_in(measure, row);
        lemma_tuples(facts, row, date);
        lemma_repo(repo, tuple_for(facts, measure.source, row, date));
        lemma_single(repo_of_pull(facts, row), repo);
    }
}

proof fn lemma_repo_comments(facts: Facts, frame: Frame, repo: Seq<char>)
    ensures
        picks(
            of_comments(repo_tests()),
            seq![Cell::Text(repo)],
            facts,
            frame,
            comments_within(facts, frame, seq![repo]),
        ),
{
    let measure = of_comments(repo_tests());
    let params = seq![Cell::Text(repo)];
    let wanted = comments_within(facts, frame, seq![repo]);
    assert forall|row: Row| #[trigger]
        wanted(row) <==> is_counted(
            measure,
            params,
            facts,
            frame.span,
            frame.reference,
            frame.now,
            row,
        ) by {
        let date = date_in(measure, row);
        lemma_tuples(facts, row, date);
        lemma_repo(repo, tuple_for(facts, measure.source, row, date));
        lemma_single(repo_of_pull(facts, row), repo);
    }
}

/// Each measure of a user report is the number that it is named after, in the
/// current window and in the previous one: pull requests that the user opened,
/// those of them that are merged, reviews that the user gave to others and got
/// from others, comments that the user wrote on the pull requests of others, and
/// the lines that the user added and removed.
pub proof fn law_user_measures_count_what_they_are_named_after(
    keys: Seq<Seq<char>>,
    facts: Facts,
    frame: Frame,
)
    ensures
        user_measures_commands(keys, comparison_of(frame.span, frame.reference)).len() == 7,
        counts_rows(
            user_measures_commands(keys, comparison_of(frame.span, frame.reference))[0],
            of_pulls(only_tests(name("p"@, "author_key"@), keys.len()), None),
            text_cells(keys),
            facts,
            frame,
            pulls_of(facts, frame, "author_key"@, keys),
        ),
        counts_rows(
            user_measures_commands(keys, comparison_of(frame.span, frame.reference))[1],
            of_pulls(merged_tests(name("p"@, "author_key"@), keys.len()), None),
            text_cells(keys),
            facts,
            frame,
            merged_pulls_of(facts, frame, "author_key"@, keys),
        ),
        counts_rows(
            user_measures_commands(keys, comparison_of(frame.span, frame.reference))[2],
            of_reviews(except_tests(name("fr"@, "reviewer_key"@), name("p"@, "author_key"@), keys.len())),
            text_cells(keys) + text_cells(keys),
            facts,
            frame,
            reviews_given(facts, frame, keys),
        ),
        counts_rows(
            user_measures_commands(keys, comparison_of(frame.span, frame.reference))[3],
            of_reviews(except_tests(name("p"@, "author_key"@), name("fr"@, "reviewer_key"@), keys.len())),
            text_cells(keys) + text_cells(keys),
            facts,
            frame,
            reviews_received(facts, frame, keys),
        ),
        counts_rows(
            user_measures_commands(keys, comparison_of(frame.span, frame.reference))[4],
            of_comments(except_tests(name("fc"@, "author_key"@), name("p"@, "author_key"@), keys.len())),
            text_cells(keys) + text_cells(keys),
            facts,
            frame,
            comments_given(facts, frame, keys),
        ),
        sums_rows(
            user_measures_commands(keys, comparison_of(frame.span, frame.reference))[5],
            of_pulls(only_tests(name("p"@, "author_key"@), keys.len()), Some(name("p"@, "additions"@))),
            text_cells(keys),
            facts,
            frame,
            pulls_of(facts, frame, "author_key"@, keys),
            "additions"@,
        ),
        sums_rows(
            user_measures_commands(keys, comparison_of(frame.span, frame.reference))[6],
            of_pulls(only_tests(name("p"@, "author_key"@), keys.len()), Some(name("p"@, "deletions"@))),
            text_cells(keys),
            facts,
            frame,
            pulls_of(facts, frame, "author_key"@, keys),
            "deletions"@,
        ),
{
    let windows = comparison_of(frame.span, frame.reference);
    let any = Map::<Seq<char>, Row>::empty();
    lemma_names();
    lemma_pulls("author_key"@, None, facts, frame, keys);
    lemma_extra_texts(name("p"@, "author_key"@), name("p"@, "author_key"@), keys.len());
    lemma_only(name("p"@, "author_key"@), keys, any);
    lemma_measure_texts(name("p"@, "author_key"@), of_pulls(only_tests(name("p"@, "author_key"@), keys.len()), None), windows, 0);
    lemma_counts(
        of_pulls(only_tests(name("p"@, "author_key"@), keys.len()), None),
        text_cells(keys),
        facts,
        frame.span,
        frame.reference,
        frame.now,
        rows_read(facts, of_pulls(only_tests(name("p"@, "author_key"@), keys.len()), None).source),
        pulls_of(facts, frame, "author_key"@, keys),
    );
    lemma_merged_pulls("author_key"@, facts, frame, keys);
    lemma_extra_texts(name("p"@, "author_key"@), name("p"@, "author_key"@), keys.len());
    lemma_merged(name("p"@, "author_key"@), keys, any);
    lemma_measure_texts(name("p"@, "author_key"@), of_pulls(merged_tests(name("p"@, "author_key"@), keys.len()), None), windows, 0);
    lemma_counts(
        of_pulls(merged_tests(name("p"@, "author_key"@), keys.len()), None),
        text_cells(keys),
        facts,
        frame.span,
        frame.reference,
        frame.now,
        rows_read(facts, of_pulls(merged_tests(name("p"@, "author_key"@), keys.len()), None).source),
        merged_pulls_of(facts, frame, "author_key"@, keys),
    );
    lemma_given(facts, frame, keys);
    lemma_extra_texts(name("fr"@, "reviewer_key"@), name("p"@, "author_key"@), keys.len());
    lemma_except(name("fr"@, "reviewer_key"@), name("p"@, "author_key"@), keys, any);
    lemma_measure_texts(name("p"@, "author_key"@), of_reviews(except_tests(name("fr"@, "reviewer_key"@), name("p"@, "author_key"@), keys.len())), windows, 0);
    lemma_counts(
        of_reviews(except_tests(name("fr"@, "reviewer_key"@), name("p"@, "author_key"@), keys.len())),
        text_cells(keys) + text_cells(keys),
        facts,
        frame.span,
        frame.reference,
        frame.now,
        rows_read(facts, of_reviews(except_tests(name("fr"@, "reviewer_key"@), name("p"@, "author_key"@), keys.len())).source),
        reviews_given(facts, frame, keys),
    );
    lemma_received(facts, frame, keys);
    lemma_extra_texts(name("p"@, "author_key"@), name("fr"@, "reviewer_key"@), keys.len());
    lemma_except(name("p"@, "author_key"@), name("fr"@, "reviewer_key"@), keys, any);
    lemma_measure_texts(name("p"@, "author_key"@), of_reviews(except_tests(name("p"@, "author_key"@), name("fr"@, "reviewer_key"@), keys.len())), windows, 0);
    lemma_counts(
        of_reviews(except_tests(name("p"@, "author_key"@), name("fr"@, "reviewer_key"@), keys.len())),
        text_cells(keys) + text_cells(keys),
        facts,
        frame.span,
        frame.reference,
        frame.now,
        rows_read(facts, of_reviews(except_tests(name("p"@, "author_key"@), name("fr"@, "reviewer_key"@), keys.len())).source),
        reviews_received(facts, frame, keys),
    );
    lemma_comments_given(facts, frame, keys);
    lemma_extra_texts(name("fc"@, "author_key"@), name("p"@, "author_key"@), keys.len());
    lemma_except(name("fc"@, "author_key"@), name("p"@, "author_key"@), keys, any);
    lemma_measure_texts(name("p"@, "author_key"@), of_comments(except_tests(name("fc"@, "author_key"@), name("p"@, "author_key"@), keys.len())), windows, 0);
    lemma_counts(
        of_comments(except_tests(name("fc"@, "author_key"@), name("p"@, "author_key"@), keys.len())),
        text_cells(keys) + text_cells(keys),
        facts,
        frame.span,
        frame.reference,
        frame.now,
        rows_read(facts, of_comments(except_tests(name("fc"@, "author_key"@), name("p"@, "author_key"@), keys.len())).source),
        comments_given(facts, frame, keys),
    );
    lemma_pulls("author_key"@, Some(name("p"@, "additions"@)), facts, frame, keys);
    lemma_extra_texts(name("p"@, "author_key"@), name("p"@, "author_key"@), keys.len());
    lemma_only(name("p"@, "author_key"@), keys, any);
    lemma_measure_texts(name("p"@, "author_key"@), of_pulls(only_tests(name("p"@, "author_key"@), keys.len()), Some(name("p"@, "additions"@))), windows, 0);
    lemma_sums(
        of_pulls(only_tests(name("p"@, "author_key"@), keys.len()), Some(name("p"@, "additions"@))),
        text_cells(keys),
        facts,
        frame.span,
        frame.reference,
        frame.now,
        rows_read(facts, of_pulls(only_tests(name("p"@, "author_key"@), keys.len()), Some(name("p"@, "additions"@))).source),
        pulls_of(facts, frame, "author_key"@, keys),
    );
    lemma_pulls("author_key"@, Some(name("p"@, "deletions"@)), facts, frame, keys);
    lemma_extra_texts(name("p"@, "author_key"@), name("p"@, "author_key"@), keys.len());
    lemma_only(name("p"@, "author_key"@), keys, any);
    lemma_measure_texts(name("p"@, "author_key"@), of_pulls(only_tests(name("p"@, "author_key"@), keys.len()), Some(name("p"@, "deletions"@))), windows, 0);
    lemma_sums(
        of_pulls(only_tests(name("p"@, "author_key"@), keys.len()), Some(name("p"@, "deletions"@))),
        text_cells(keys),
        facts,
        frame.span,
        frame.reference,
        frame.now,
        rows_read(facts, of_pulls(only_tests(name("p"@, "author_key"@), keys.len()), Some(name("p"@, "deletions"@))).source),
        pulls_of(facts, frame, "author_key"@, keys),
    );
}

/// Each measure of a user group is the number that it is named after: pull
/// requests that members opened, those of them that are merged, and reviews that
/// members gave to outsiders.
pub proof fn law_user_group_measures_count_what_they_are_named_after(
    keys: Seq<Seq<char>>,
    facts: Facts,
    frame: Frame,
)
    ensures
        user_group_measures_commands(keys, comparison_of(frame.span, frame.reference)).len() == 3,
        counts_rows(
            user_group_measures_commands(keys, comparison_of(frame.span, frame.reference))[0],
            of_pulls(only_tests(name("p"@, "author_key"@), keys.len()), None),
            text_cells(keys),
            facts,
            frame,
            pulls_of(facts, frame, "author_key"@, keys),
        ),
        counts_rows(
            user_group_measures_commands(keys, comparison_of(frame.span, frame.reference))[1],
            of_pulls(merged_tests(name("p"@, "author_key"@), keys.len()), None),
            text_cells(keys),
            facts,
            frame,
            merged_pulls_of(facts, frame, "author_key"@, keys),
        ),
        counts_rows(
            user_group_measures_commands(keys, comparison_of(frame.span, frame.reference))[2],
            of_reviews(except_tests(name("fr"@, "reviewer_key"@), name("p"@, "author_key"@), keys.len())),
            text_cells(keys) + text_cells(keys),
            facts,
            frame,
            reviews_given(facts, frame, keys),
        ),
{
    let windows = comparison_of(frame.span, frame.reference);
    let any = Map::<Seq<char>, Row>::empty();
    lemma_names();
    lemma_pulls("author_key"@, None, facts, frame, keys);
    lemma_extra_texts(name("p"@, "author_key"@), name("p"@, "author_key"@), keys.len());
    lemma_only(name("p"@, "author_key"@), keys, any);
    lemma_measure_texts(name("p"@, "author_key"@), of_pulls(only_tests(name("p"@, "author_key"@), keys.len()), None), windows, 0);
    lemma_counts(
        of_pulls(only_tests(name("p"@, "author_key"@), keys.len()), None),
        text_cells(keys),
        facts,
        frame.span,
        frame.reference,
        frame.now,
        rows_read(facts, of_pulls(only_tests(name("p"@, "author_key"@), keys.len()), None).source),
        pulls_of(facts, frame, "author_key"@, keys),
    );
    lemma_merged_pulls("author_key"@, facts, frame, keys);
    lemma_extra_texts(name("p"@, "author_key"@), name("p"@, "author_key"@), keys.len());
    lemma_merged(name("p"@, "author_key"@), keys, any);
    lemma_measure_texts(name("p"@, "author_key"@), of_pulls(merged_tests(name("p"@, "author_key"@), keys.len()), None), windows, 0);
    lemma_counts(
        of_pulls(merged_tests(name("p"@, "author_key"@), keys.len()), None),
        text_cells(keys),
        facts,
        frame.span,
        frame.reference,
        frame.now,
        rows_read(facts, of_pulls(merged_tests(name("p"@, "author_key"@), keys.len()), None).source),
        merged_pulls_of(facts, frame, "author_key"@, keys),
    );
    lemma_given(facts, frame, keys);
    lemma_extra_texts(name("fr"@, "reviewer_key"@), name("p"@, "author_key"@), keys.len());
    lemma_except(name("fr"@, "reviewer_key"@), name("p"@, "author_key"@), keys, any);
    lemma_measure_texts(name("p"@, "author_key"@), of_reviews(except_tests(name("fr"@, "reviewer_key"@), name("p"@, "author_key"@), keys.len())), windows, 0);
    lemma_counts(
        of_reviews(except_tests(name("fr"@, "reviewer_key"@), name("p"@, "author_key"@), keys.len())),
        text_cells(keys) + text_cells(keys),
        facts,
        frame.span,
        frame.reference,
        frame.now,
        rows_read(facts, of_reviews(except_tests(name("fr"@, "reviewer_key"@), name("p"@, "author_key"@), keys.len())).source),
        reviews_given(facts, frame, keys),
    );
}

/// Each measure of a repository group is the number that it is named after: pull
/// requests opened in its repositories, those of them that are merged, and the
/// reviews and comments on them.
pub proof fn law_repo_group_measures_count_what_they_are_named_after(
    keys: Seq<Seq<char>>,
    facts: Facts,
    frame: Frame,
)
    ensures
        repo_group_measures_commands(keys, comparison_of(frame.span, frame.reference)).len() == 4,
        counts_rows(
            repo_group_measures_commands(keys, comparison_of(frame.span, frame.reference))[0],
            of_pulls(only_tests(name("p"@, "repo_key"@), keys.len()), None),
            text_cells(keys),
            facts,
            frame,
            pulls_of(facts, frame, "repo_key"@, keys),
        ),
        counts_rows(
            repo_group_measures_commands(keys, comparison_of(frame.span, frame.reference))[1],
            of_pulls(merged_tests(name("p"@, "repo_key"@), keys.len()), None),
            text_cells(keys),
            facts,
            frame,
            merged_pulls_of(facts, frame, "repo_key"@, keys),
        ),
        counts_rows(
            repo_group_measures_commands(keys, comparison_of(frame.span, frame.reference))[2],
            of_reviews(only_tests(name("p"@, "repo_key"@), keys.len())),
            text_cells(keys),
            facts,
            frame,
            reviews_within(facts, frame, keys),
        ),
        counts_rows(
            repo_group_measures_commands(keys, comparison_of(frame.span, frame.reference))[3],
            of_comments(only_tests(name("p"@, "repo_key"@), keys.len())),
            text_cells(keys),
            facts,
            frame,
            comments_within(facts, frame, keys),
        ),
{
    let windows = comparison_of(frame.span, frame.reference);
    let any = Map::<Seq<char>, Row>::empty();
    lemma_names();
    lemma_pulls("repo_key"@, None, facts, frame, keys);
    lemma_extra_texts(name("p"@, "repo_key"@), name("p"@, "author_key"@), keys.len());
    lemma_only(name("p"@, "repo_key"@), keys, any);
    lemma_measure_texts(name("p"@, "author_key"@), of_pulls(only_tests(name("p"@, "repo_key"@), keys.len()), None), windows, 0);
    lemma_counts(
        of_pulls(only_tests(name("p"@, "repo_key"@), keys.len()), None),
        text_cells(keys),
        facts,
        frame.span,
        frame.reference,
        frame.now,
        rows_read(facts, of_pulls(only_tests(name("p"@, "repo_key"@), keys.len()), None).source),
        pulls_of(facts, frame, "repo_key"@, keys),
    );
    lemma_merged_pulls("repo_key"@, facts, frame, keys);
    lemma_extra_texts(name("p"@, "repo_key"@), name("p"@, "author_key"@), keys.len());
    lemma_merged(name("p"@, "repo_key"@), keys, any);
    lemma_measure_texts(name("p"@, "author_key"@), of_pulls(merged_tests(name("p"@, "repo_key"@), keys.len()), None), windows, 0);
    lemma_counts(
        of_pulls(merged_tests(name("p"@, "repo_key"@), keys.len()), None),
        text_cells(keys),
        facts,
        frame.span,
        frame.reference,
        frame.now,
        rows_read(facts, of_pulls(merged_tests(name("p"@, "repo_key"@), keys.len()), None).source),
        merged_pulls_of(facts, frame, "repo_key"@, keys),
    );
    lemma_reviews_within(facts, frame, keys);
    lemma_extra_texts(name("p"@, "repo_key"@), name("p"@, "author_key"@), keys.len());
    lemma_only(name("p"@, "repo_key"@), keys, any);
    lemma_measure_texts(name("p"@, "author_key"@), of_reviews(only_tests(name("p"@, "repo_key"@), keys.len())), windows, 0);
    lemma_counts(
        of_reviews(only_tests(name("p"@, "repo_key"@), keys.len())),
        text_cells(keys),
        facts,
        frame.span,
        frame.reference,
        frame.now,
        rows_read(facts, of_reviews(only_tests(name("p"@, "repo_key"@), keys.len())).source),
        reviews_within(facts, frame, keys),
    );
    lemma_comments_within(facts, frame, keys);
    lemma_extra_texts(name("p"@, "repo_key"@), name("p"@, "author_key"@), keys.len());
    lemma_only(name("p"@, "repo_key"@), keys, any);
    lemma_measure_texts(name("p"@, "author_key"@), of_comments(only_tests(name("p"@, "repo_key"@), keys.len())), windows, 0);
    lemma_counts(
        of_comments(only_tests(name("p"@, "repo_key"@), keys.len())),
        text_cells(keys),
        facts,
        frame.span,
        frame.reference,
        frame.now,
        rows_read(facts, of_comments(only_tests(name("p"@, "repo_key"@), keys.len())).source),
        comments_within(facts, frame, keys),
    );
}

/// Each measure of a repository report is the number that it is named after:
/// pull requests opened in it, those of them that are merged, and the reviews
/// and comments on them.
pub proof fn law_repo_measures_count_what_they_are_named_after(
    repo: Seq<char>,
    facts: Facts,
    frame: Frame,
)
    ensures
        repo_measures_commands(seq![repo], comparison_of(frame.span, frame.reference)).len() == 4,
        counts_rows(
            repo_measures_commands(seq![repo], comparison_of(frame.span, frame.reference))[0],
            of_pulls(repo_tests(), None),
            seq![Cell::Text(repo)],
            facts,
            frame,
            pulls_of(facts, frame, "repo_key"@, seq![repo]),
        ),
        counts_rows(
            repo_measures_commands(seq![repo], comparison_of(frame.span, frame.reference))[1],
            of_pulls(merged_repo_tests(), None),
            seq![Cell::Text(repo)],
            facts,
            frame,
            merged_pulls_of(facts, frame, "repo_key"@, seq![repo]),
        ),
        counts_rows(
            repo_measures_commands(seq![repo], comparison_of(frame.span, frame.reference))[2],
            of_reviews(repo_tests()),
            seq![Cell::Text(repo)],
            facts,
            frame,
            reviews_within(facts, frame, seq![repo]),
        ),
        counts_rows(
            repo_measures_commands(seq![repo], comparison_of(frame.span, frame.reference))[3],
            of_comments(repo_tests()),
            seq![Cell::Text(repo)],
            facts,
            frame,
            comments_within(facts, frame, seq![repo]),
        ),
{
    let windows = comparison_of(frame.span, frame.reference);
    let any = Map::<Seq<char>, Row>::empty();
    lemma_names();
    assert(text_cells(seq![repo]) =~= seq![Cell::Text(repo)]);
    lemma_repo_pulls(facts, frame, repo);
    lemma_extra_texts(name("p"@, "repo_key"@), name("p"@, "author_key"@), 0);
    lemma_repo(repo, any);
    lemma_measure_texts(name("p"@, "author_key"@), of_pulls(repo_tests(), None), windows, 0);
    lemma_counts(
        of_pulls(repo_tests(), None),
        seq![Cell::Text(repo)],
        facts,
        frame.span,
        frame.reference,
        frame.now,
        rows_read(facts, of_pulls(repo_tests(), None).source),
        pulls_of(facts, frame, "repo_key"@, seq![repo]),
    );
    lemma_repo_merged_pulls(facts, frame, repo);
    lemma_extra_texts(name("p"@, "repo_key"@), name("p"@, "author_key"@), 0);
    lemma_repo(repo, any);
    lemma_measure_texts(name("p"@, "author_key"@), of_pulls(merged_repo_tests(), None), windows, 0);
    lemma_counts(
        of_pulls(merged_repo_tests(), None),
        seq![Cell::Text(repo)],
        facts,
        frame.span,
        frame.reference,
        frame.now,
        rows_read(facts, of_pulls(merged_repo_tests(), None).source),
        merged_pulls_of(facts, frame, "repo_key"@, seq![repo]),
    );
    lemma_repo_reviews(facts, frame, repo);
    lemma_extra_texts(name("p"@, "repo_key"@), name("p"@, "author_key"@), 0);
    lemma_repo(repo, any);
    lemma_measure_texts(name("p"@, "author_key"@), of_reviews(repo_tests()), windows, 0);
    lemma_counts(
        of_reviews(repo_tests()),
        seq![Cell::Text(repo)],
        facts,
        frame.span,
        frame.reference,
        frame.now,
        rows_read(facts, of_reviews(repo_tests()).source),
        reviews_within(facts, frame, seq![repo]),
    );
    lemma_repo_comments(facts, frame, repo);
    lemma_extra_texts(name("p"@, "repo_key"@), name("p"@, "author_key"@), 0);
    lemma_repo(repo, any);
    lemma_measure_texts(name("p"@, "author_key"@), of_comments(repo_tests()), windows, 0);
    lemma_counts(
        of_comments(repo_tests()),
        seq![Cell::Text(repo)],
        facts,
        frame.span,
        frame.reference,
        frame.now,
        rows_read(facts, of_comments(repo_tests()).source),
        comments_within(facts, frame, seq![repo]),
    );
}

/// The leaderboards of a user report rank repositories by the pull requests that
/// the user opened in them, people by the reviews that the user got from them,
/// and people by the reviews that the user gave them.
pub proof fn law_user_leaderboards_rank_what_they_are_named_after(
    keys: Seq<Seq<char>>,
    facts: Facts,
    frame: Frame,
    top: int,
)
    ensures
        user_aggregations_commands(keys, comparison_of(frame.span, frame.reference), top).len() == 3,
        ranks_rows(
            user_aggregations_commands(keys, comparison_of(frame.span, frame.reference), top)[0],
            name("p"@, "repo_key"@),
            of_pulls(only_tests(name("p"@, "author_key"@), keys.len()), None),
            text_cells(keys),
            facts,
            frame,
            top,
            pulls_of(facts, frame, "author_key"@, keys),
            in_column("repo_key"@),
        ),
        ranks_rows(
            user_aggregations_commands(keys, comparison_of(frame.span, frame.reference), top)[1],
            name("fr"@, "reviewer_key"@),
            of_reviews(except_tests(name("p"@, "author_key"@), name("fr"@, "reviewer_key"@), keys.len())),
            text_cells(keys) + text_cells(keys),
            facts,
            frame,
            top,
            reviews_received(facts, frame, keys),
            in_column("reviewer_key"@),
        ),
        ranks_rows(
            user_aggregations_commands(keys, comparison_of(frame.span, frame.reference), top)[2],
            name("p"@, "author_key"@),
            of_reviews(except_tests(name("fr"@, "reviewer_key"@), name("p"@, "author_key"@), keys.len())),
            text_cells(keys) + text_cells(keys),
            facts,
            frame,
            top,
            reviews_given(facts, frame, keys),
            pull_author(facts),
        ),
{
    let windows = comparison_of(frame.span, frame.reference);
    let any = Map::<Seq<char>, Row>::empty();
    lemma_names();
    lemma_pulls("author_key"@, None, facts, frame, keys);
    lemma_extra_texts(name("p"@, "author_key"@), name("p"@, "author_key"@), keys.len());
    lemma_only(name("p"@, "author_key"@), keys, any);
    lemma_measure_texts(name("p"@, "repo_key"@), of_pulls(only_tests(name("p"@, "author_key"@), keys.len()), None), windows, top);
    assert forall|row: Row| #[trigger]
        in_column("repo_key"@)(row) == value_of(
            tuple_for(facts, of_pulls(only_tests(name("p"@, "author_key"@), keys.len()), None).source, row, date_in(of_pulls(only_tests(name("p"@, "author_key"@), keys.len()), None), row)),
            name("p"@, "repo_key"@),
        ) by {
        lemma_tuples(facts, row, date_in(of_pulls(only_tests(name("p"@, "author_key"@), keys.len()), None), row));
    }
    lemma_ranks(
        name("p"@, "repo_key"@),
        of_pulls(only_tests(name("p"@, "author_key"@), keys.len()), None),
        text_cells(keys),
        facts,
        frame,
        pulls_of(facts, frame, "author_key"@, keys),
        in_column("repo_key"@),
    );
    lemma_received(facts, frame, keys);
    lemma_extra_texts(name("p"@, "author_key"@), name("fr"@, "reviewer_key"@), keys.len());
    lemma_except(name("p"@, "author_key"@), name("fr"@, "reviewer_key"@), keys, any);
    lemma_measure_texts(name("fr"@, "reviewer_key"@), of_reviews(except_tests(name("p"@, "author_key"@), name("fr"@, "reviewer_key"@), keys.len())), windows, top);
    assert forall|row: Row| #[trigger]
        in_column("reviewer_key"@)(row) == value_of(
            tuple_for(facts, of_reviews(except_tests(name("p"@, "author_key"@), name("fr"@, "reviewer_key"@), keys.len())).source, row, date_in(of_reviews(except_tests(name("p"@, "author_key"@), name("fr"@, "reviewer_key"@), keys.len())), row)),
            name("fr"@, "reviewer_key"@),
        ) by {
        lemma_tuples(facts, row, date_in(of_reviews(except_tests(name("p"@, "author_key"@), name("fr"@, "reviewer_key"@), keys.len())), row));
    }
    lemma_ranks(
        name("fr"@, "reviewer_key"@),
        of_reviews(except_tests(name("p"@, "author_key"@), name("fr"@, "reviewer_key"@), keys.len())),
        text_cells(keys) + text_cells(keys),
        facts,
        frame,
        reviews_received(facts, frame, keys),
        in_column("reviewer_key"@),
    );
    lemma_given(facts, frame, keys);
    lemma_extra_texts(name("fr"@, "reviewer_key"@), name("p"@, "author_key"@), keys.len());
    lemma_except(name("fr"@, "reviewer_key"@), name("p"@, "author_key"@), keys, any);
    lemma_measure_texts(name("p"@, "author_key"@), of_reviews(except_tests(name("fr"@, "reviewer_key"@), name("p"@, "author_key"@), keys.len())), windows, top);
    assert forall|row: Row| #[trigger]
        pull_author(facts)(row) == value_of(
            tuple_for(facts, of_reviews(except_tests(name("fr"@, "reviewer_key"@), name("p"@, "author_key"@), keys.len())).source, row, date_in(of_reviews(except_tests(name("fr"@, "reviewer_key"@), name("p"@, "author_key"@), keys.len())), row)),
            name("p"@, "author_key"@),
        ) by {
        lemma_tuples(facts, row, date_in(of_reviews(except_tests(name("fr"@, "reviewer_key"@), name("p"@, "author_key"@), keys.len())), row));
    }
    lemma_ranks(
        name("p"@, "author_key"@),
        of_reviews(except_tests(name("fr"@, "reviewer_key"@), name("p"@, "author_key"@), keys.len())),
        text_cells(keys) + text_cells(keys),
        facts,
        frame,
        reviews_given(facts, frame, keys),
        pull_author(facts),
    );
}

/// The leaderboards of a repository report rank people by the pull requests that
/// they opened in it, by those of them that are merged, by the reviews that they
/// gave and by the comments that they wrote there.
pub proof fn law_repo_leaderboards_rank_what_they_are_named_after(
    repo: Seq<char>,
    facts: Facts,
    frame: Frame,
    top: int,
)
    ensures
        repo_aggregations_commands(seq![repo], comparison_of(frame.span, frame.reference), top).len() == 4,
        ranks_rows(
            repo_aggregations_commands(seq![repo], comparison_of(frame.span, frame.reference), top)[0],
            name("p"@, "author_key"@),
            of_pulls(repo_tests(), None),
            seq![Cell::Text(repo)],
            facts,
            frame,
            top,
            pulls_of(facts, frame, "repo_key"@, seq![repo]),
            in_column("author_key"@),
        ),
        ranks_rows(
            repo_aggregations_commands(seq![repo], comparison_of(frame.span, frame.reference), top)[1],
            name("p"@, "author_key"@),
            of_pulls(merged_repo_tests(), None),
            seq![Cell::Text(repo)],
            facts,
            frame,
            top,
            merged_pulls_of(facts, frame, "repo_key"@, seq![repo]),
            in_column("author_key"@),
        ),
        ranks_rows(
            repo_aggregations_commands(seq![repo], comparison_of(frame.span, frame.reference), top)[2],
            name("fr"@, "reviewer_key"@),
            of_reviews(repo_tests()),
            seq![Cell::Text(repo)],
            facts,
            frame,
            top,
            reviews_within(facts, frame, seq![repo]),
            in_column("reviewer_key"@),
        ),
        ranks_rows(
            repo_aggregations_commands(seq![repo], comparison_of(frame.span, frame.reference), top)[3],
            name("fc"@, "author_key"@),
            of_comments(repo_tests()),
            seq![Cell::Text(repo)],
            facts,
            frame,
            top,
            comments_within(facts, frame, seq![repo]),
            in_column("author_key"@),
        ),
{
    let windows = comparison_of(frame.span, frame.reference);
    let any = Map::<Seq<char>, Row>::empty();
    lemma_names();
    assert(text_cells(seq![repo]) =~= seq![Cell::Text(repo)]);
    lemma_repo_pulls(facts, frame, repo);
    lemma_extra_texts(name("p"@, "repo_key"@), name("p"@, "author_key"@), 0);
    lemma_repo(repo, any);
    lemma_measure_texts(name("p"@, "author_key"@), of_pulls(repo_tests(), None), windows, top);
    assert forall|row: Row| #[trigger]
        in_column("author_key"@)(row) == value_of(
            tuple_for(facts, of_pulls(repo_tests(), None).source, row, date_in(of_pulls(repo_tests(), None), row)),
            name("p"@, "author_key"@),
        ) by {
        lemma_tuples(facts, row, date_in(of_pulls(repo_tests(), None), row));
    }
    lemma_ranks(
        name("p"@, "author_key"@),
        of_pulls(repo_tests(), None),
        seq![Cell::Text(repo)],
        facts,
        frame,
        pulls_of(facts, frame, "repo_key"@, seq![repo]),
        in_column("author_key"@),
    );
    lemma_repo_merged_pulls(facts, frame, repo);
    lemma_extra_texts(name("p"@, "repo_key"@), name("p"@, "author_key"@), 0);
    lemma_repo(repo, any);
    lemma_measure_texts(name("p"@, "author_key"@), of_pulls(merged_repo_tests(), None), windows, top);
    assert forall|row: Row| #[trigger]
        in_column("author_key"@)(row) == value_of(
            tuple_for(facts, of_pulls(merged_repo_tests(), None).source, row, date_in(of_pulls(merged_repo_tests(), None), row)),
            name("p"@, "author_key"@),
        ) by {
        lemma_tuples(facts, row, date_in(of_pulls(merged_repo_tests(), None), row));
    }
    lemma_ranks(
        name("p"@, "author_key"@),
        of_pulls(merged_repo_tests(), None),
        seq![Cell::Text(repo)],
        facts,
        frame,
        merged_pulls_of(facts, frame, "repo_key"@, seq![repo]),
        in_column("author_key"@),
    );
    lemma_repo_reviews(facts, frame, repo);
    lemma_extra_texts(name("p"@, "repo_key"@), name("p"@, "author_key"@), 0);
    lemma_repo(repo, any);
    lemma_measure_texts(name("fr"@, "reviewer_key"@), of_reviews(repo_tests()), windows, top);
    assert forall|row: Row| #[trigger]
        in_column("reviewer_key"@)(row) == value_of(
            tuple_for(facts, of_reviews(repo_tests()).source, row, date_in(of_reviews(repo_tests()), row)),
            name("fr"@, "reviewer_key"@),
        ) by {
        lemma_tuples(facts, row, date_in(of_reviews(repo_tests()), row));
    }
    lemma_ranks(
        name("fr"@, "reviewer_key"@),
        of_reviews(repo_tests()),
        seq![Cell::Text(repo)],
        facts,
        frame,
        reviews_within(facts, frame, seq![repo]),
        in_column("reviewer_key"@),
    );
    lemma_repo_comments(facts, frame, repo);
    lemma_extra_texts(name("p"@, "repo_key"@), name("p"@, "author_key"@), 0);
    lemma_repo(repo, any);
    lemma_measure_texts(name("fc"@, "author_key"@), of_comments(repo_tests()), windows, top);
    assert forall|row: Row| #[trigger]
        in_column("author_key"@)(row) == value_of(
            tuple_for(facts, of_comments(repo_tests()).source, row, date_in(of_comments(repo_tests()), row)),
            name("fc"@, "author_key"@),
        ) by {
        lemma_tuples(facts, row, date_in(of_comments(repo_tests()), row));
    }
    lemma_ranks(
        name("fc"@, "author_key"@),
        of_comments(repo_tests()),
        seq![Cell::Text(repo)],
        facts,
        frame,
        comments_within(facts, frame, seq![repo]),
        in_column("author_key"@),
    );
}

/// The windows of a comparison are those of the period and of the one before
/// it, and the report is labeled with their keys.
pub proof fn law_a_comparison_is_of_the_period_and_the_one_before(span: Span, reference: int)
    ensures
        compares(comparison_of(span, reference), span, reference),
{
}

/// A metric shows the two sums that its measure gave, and how much it grew.
pub proof fn law_a_metric_shows_its_sums(metric: MetricWithDelta, sums: (i64, i64))
    requires
        is_measured(metric, sums),
        sums.0 >= 0,
        sums.1 >= 0,
    ensures
        metric.current == sums.0,
        metric.previous == sums.1,
        metric.previous + metric.delta == metric.current,
{
}

/// The check-run query of a repository counts, over the current window of the
/// days of creation, the runs that failed or timed out, and all runs.
pub proof fn law_check_runs_are_counted_in_the_repository(repo: Seq<char>, windows: Comparison)
    ensures
        ({
            let command = checks_command(repo, windows);
            &&& command.sql == "SELECT SUM(CASE WHEN c.conclusion IN ('FAILURE', 'TIMED_OUT') THEN 1 ELSE 0 END),
                            COUNT(*)
                     FROM fact_check_runs c
                     JOIN fact_pull_requests p ON p.pr_key = c.pr_key
                     JOIN dim_date dd ON dd.date_key = p.created_date_key
                     WHERE p.repo_key = ?1
                       AND "@ + range_sql(windows.current_start, windows.current_end)
            &&& command.params == seq![Cell::Text(repo)]
        }),
{
}

// ---------------------------------------------------------------- reports

/// The sums are what a command gave over the facts, in the current window and in
/// the previous one, whatever measure it asks for.
pub open spec fn answers(
    command: Command,
    sums: (i64, i64),
    facts: Facts,
    span: Span,
    reference: int,
) -> bool {
    forall|measure: Measure, params: Seq<Cell>| #[trigger]
        asks_for(command, measure, params, comparison_of(span, reference)) ==> sums.0 == yields(
            measure,
            params,
            facts,
            span,
            reference,
            true,
        ) && sums.1 == yields(measure, params, facts, span, reference, false)
}

/// Each command was answered.
pub open spec fn all_answered(
    commands: Seq<Command>,
    sums: Seq<(i64, i64)>,
    facts: Facts,
    span: Span,
    reference: int,
) -> bool {
    &&& sums.len() == commands.len()
    &&& forall|i: int|
        0 <= i < sums.len() ==> answers(
            commands[i],
            #[trigger] sums[i],
            facts,
            span,
            reference,
        )
}

/// The metric holds the number of the wanted rows in both windows.
pub open spec fn tells(
    metric: MetricWithDelta,
    rows: Seq<Row>,
    now: spec_fn(Row) -> bool,
    before: spec_fn(Row) -> bool,
) -> bool {
    &&& metric.current == rows.filter(now).len()
    &&& metric.previous == rows.filter(before).len()
    &&& metric.delta == metric.current - metric.previous
}

/// The current window.
pub open spec fn now_in(span: Span, reference: int) -> Frame {
    Frame { span, reference, now: true }
}

/// The previous window.
pub open spec fn before_in(span: Span, reference: int) -> Frame {
    Frame { span, reference, now: false }
}

/// A user report tells, under each name, what the name says: the pull requests
/// that the user opened and those of them that are merged, the reviews given to
/// others and received from others, and the comments given to others.
pub proof fn law_a_user_report_tells_what_it_names(
    report: UserMetrics,
    sums: Seq<(i64, i64)>,
    keys: Seq<Seq<char>>,
    facts: Facts,
    span: Span,
    reference: int,
)
    requires
        shows_user_sums(report, sums),
        all_answered(
            user_measures_commands(keys, comparison_of(span, reference)),
            sums,
            facts,
            span,
            reference,
        ),
    ensures
        tells(
            report.prs_opened,
            facts.pull_requests,
            pulls_of(facts, now_in(span, reference), "author_key"@, keys),
            pulls_of(facts, before_in(span, reference), "author_key"@, keys),
        ),
        tells(
            report.prs_merged,
            facts.pull_requests,
            merged_pulls_of(facts, now_in(span, reference), "author_key"@, keys),
            merged_pulls_of(facts, before_in(span, reference), "author_key"@, keys),
        ),
        tells(
            report.reviews_given,
            facts.reviews,
            reviews_given(facts, now_in(span, reference), keys),
            reviews_given(facts, before_in(span, reference), keys),
        ),
        tells(
            report.reviews_received,
            facts.reviews,
            reviews_received(facts, now_in(span, reference), keys),
            reviews_received(facts, before_in(span, reference), keys),
        ),
        tells(
            report.comments_given,
            rows_read(facts, Source::Comments),
            comments_given(facts, now_in(span, reference), keys),
            comments_given(facts, before_in(span, reference), keys),
        ),
        ({
            let added = tally(
                facts.pull_requests.filter(
                    pulls_of(facts, now_in(span, reference), "author_key"@, keys),
                ),
                "additions"@,
            );
            let removed = tally(
                facts.pull_requests.filter(
                    pulls_of(facts, now_in(span, reference), "author_key"@, keys),
                ),
                "deletions"@,
            );
            &&& added >= 0 ==> report.lines_added.current == added
            &&& removed >= 0 ==> report.lines_removed.current == removed
        }),
{
    law_user_measures_count_what_they_are_named_after(keys, facts, now_in(span, reference));
    law_user_measures_count_what_they_are_named_after(keys, facts, before_in(span, reference));
    assert(sums.len() == 7);
    lemma_answered(user_measures_commands(keys, comparison_of(span, reference)), sums, facts, span, reference);
}

proof fn lemma_answered(
    commands: Seq<Command>,
    sums: Seq<(i64, i64)>,
    facts: Facts,
    span: Span,
    reference: int,
)
    requires
        all_answered(commands, sums, facts, span, reference),
    ensures
        forall|i: int, measure: Measure, params: Seq<Cell>|
            0 <= i < sums.len() && #[trigger] asks_for(
                commands[i],
                measure,
                params,
                comparison_of(span, reference),
            ) ==> sums[i].0 == yields(measure, params, facts, span, reference, true) && sums[i].1
                == yields(measure, params, facts, span, reference, false),
{
    assert forall|i: int, measure: Measure, params: Seq<Cell>|
        0 <= i < sums.len() && #[trigger] asks_for(
            commands[i],
            measure,
            params,
            comparison_of(span, reference),
        ) implies sums[i].0 == yields(measure, params, facts, span, reference, true) && sums[i].1
        == yields(measure, params, facts, span, reference, false) by {
        assert(answers(commands[i], sums[i], facts, span, reference));
    }
}

/// A repository report tells, under each name, what the name says.
pub proof fn law_a_repo_report_tells_what_it_names(
    report: RepoMetrics,
    sums: Seq<(i64, i64)>,
    repo: Seq<char>,
    facts: Facts,
    span: Span,
    reference: int,
)
    requires
        shows_repo_sums(report, sums),
        all_answered(
            repo_measures_commands(seq![repo], comparison_of(span, reference)),
            sums,
            facts,
            span,
            reference,
        ),
    ensures
        tells(
            report.prs_opened,
            facts.pull_requests,
            pulls_of(facts, now_in(span, reference), "repo_key"@, seq![repo]),
            pulls_of(facts, before_in(span, reference), "repo_key"@, seq![repo]),
        ),
        tells(
            report.prs_merged,
            facts.pull_requests,
            merged_pulls_of(facts, now_in(span, reference), "repo_key"@, seq![repo]),
            merged_pulls_of(facts, before_in(span, reference), "repo_key"@, seq![repo]),
        ),
        tells(
            report.total_reviews,
            facts.reviews,
            reviews_within(facts, now_in(span, reference), seq![repo]),
            reviews_within(facts, before_in(span, reference), seq![repo]),
        ),
        tells(
            report.total_comments,
            rows_read(facts, Source::Comments),
            comments_within(facts, now_in(span, reference), seq![repo]),
            comments_within(facts, before_in(span, reference), seq![repo]),
        ),
{
    law_repo_measures_count_what_they_are_named_after(repo, facts, now_in(span, reference));
    law_repo_measures_count_what_they_are_named_after(repo, facts, before_in(span, reference));
    assert(sums.len() == 4);
    lemma_answered(repo_measures_commands(seq![repo], comparison_of(span, reference)), sums, facts, span, reference);
}

/// A user group report tells, under each name, what the name says, and nothing
/// that it does not count.
pub proof fn law_a_user_group_report_tells_what_it_names(
    report: GroupMetrics,
    sums: Seq<(i64, i64)>,
    keys: Seq<Seq<char>>,
    facts: Facts,
    span: Span,
    reference: int,
)
    requires
        shows_user_group_sums(report, sums),
        all_answered(
            user_group_measures_commands(keys, comparison_of(span, reference)),
            sums,
            facts,
            span,
            reference,
        ),
    ensures
        tells(
            report.prs_opened,
            facts.pull_requests,
            pulls_of(facts, now_in(span, reference), "author_key"@, keys),
            pulls_of(facts, before_in(span, reference), "author_key"@, keys),
        ),
        tells(
            report.prs_merged,
            facts.pull_requests,
            merged_pulls_of(facts, now_in(span, reference), "author_key"@, keys),
            merged_pulls_of(facts, before_in(span, reference), "author_key"@, keys),
        ),
        report.reviews_given is Some,
        tells(
            report.reviews_given->Some_0,
            facts.reviews,
            reviews_given(facts, now_in(span, reference), keys),
            reviews_given(facts, before_in(span, reference), keys),
        ),
        report.total_reviews is None,
        report.total_comments is None,
{
    law_user_group_measures_count_what_they_are_named_after(keys, facts, now_in(span, reference));
    law_user_group_measures_count_what_they_are_named_after(keys, facts, before_in(span, reference));
    assert(sums.len() == 3);
    lemma_answered(user_group_measures_commands(keys, comparison_of(span, reference)), sums, facts, span, reference);
}

/// A repository group report tells, under each name, what the name says, and
/// nothing that it does not count.
pub proof fn law_a_repo_group_report_tells_what_it_names(
    report: GroupMetrics,
    sums: Seq<(i64, i64)>,
    keys: Seq<Seq<char>>,
    facts: Facts,
    span: Span,
    reference: int,
)
    requires
        shows_repo_group_sums(report, sums),
        all_answered(
            repo_group_measures_commands(keys, comparison_of(span, reference)),
            sums,
            facts,
            span,
            reference,
        ),
    ensures
        tells(
            report.prs_opened,
            facts.pull_requests,
            pulls_of(facts, now_in(span, reference), "repo_key"@, keys),
            pulls_of(facts, before_in(span, reference), "repo_key"@, keys),
        ),
        tells(
            report.prs_merged,
            facts.pull_requests,
            merged_pulls_of(facts, now_in(span, reference), "repo_key"@, keys),
            merged_pulls_of(facts, before_in(span, reference), "repo_key"@, keys),
        ),
        report.reviews_given is None,
        report.total_reviews is Some,
        tells(
            report.total_reviews->Some_0,
            facts.reviews,
            reviews_within(facts, now_in(span, reference), keys),
            reviews_within(facts, before_in(span, reference), keys),
        ),
        report.total_comments is Some,
        tells(
            report.total_comments->Some_0,
            rows_read(facts, Source::Comments),
            comments_within(facts, now_in(span, reference), keys),
            comments_within(facts, before_in(span, reference), keys),
        ),
{
    law_repo_group_measures_count_what_they_are_named_after(keys, facts, now_in(span, reference));
    law_repo_group_measures_count_what_they_are_named_after(keys, facts, before_in(span, reference));
    assert(sums.len() == 4);
    lemma_answered(repo_group_measures_commands(keys, comparison_of(span, reference)), sums, facts, span, reference);
}

} // verus!
