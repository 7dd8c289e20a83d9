//! What the database makes of a query: rows of tables, the joins that offer
//! them, the conditions that a row passes, and the text of each.

use vstd::prelude::*;
use crate::sql::Cell;
use crate::storage::upsert::cell_less;
use crate::text::placeholder_list;

verus! {

/// A row of a table: its values, by the names of its columns.
pub type Row = Map<Seq<char>, Cell>;

/// The rows that joins bring together, by the aliases of their tables.
pub type Tuple = Map<Seq<char>, Row>;

/// The rows of every table.
pub type Tables = Map<Seq<char>, Set<Row>>;

/// A column of a table with an alias.
pub ghost struct Name {
    pub alias: Seq<char>,
    pub column: Seq<char>,
}

/// The column of that name of the table with that alias.
pub open spec fn name(alias: Seq<char>, column: Seq<char>) -> Name {
    Name { alias, column }
}

/// The text of a column's name.
pub open spec fn name_sql(name: Name) -> Seq<char> {
    name.alias + "."@ + name.column
}

/// The value of a column.
pub open spec fn value_of(tuple: Tuple, name: Name) -> Cell {
    tuple[name.alias][name.column]
}

// ---------------------------------------------------------------- conditions

/// A condition on one column.
pub ghost enum Test {
    /// It holds one of so many parameters.
    OneOf(Name, nat),
    /// It holds none of so many parameters.
    NoneOf(Name, nat),
    /// It holds the parameter.
    Equals(Name),
    /// It holds the parameter or something above it.
    AtLeast(Name),
    /// It holds the parameter or something below it.
    AtMost(Name),
    /// It holds this text.
    Reads(Name, Seq<char>),
}

/// The text of a condition.
pub open spec fn test_sql(test: Test) -> Seq<char> {
    match test {
        Test::OneOf(name, count) => name_sql(name) + " IN ("@ + placeholder_list(count) + ")"@,
        Test::NoneOf(name, count) => name_sql(name) + " NOT IN ("@ + placeholder_list(count) + ")"@,
        Test::Equals(name) => name_sql(name) + " = ?"@,
        Test::AtLeast(name) => name_sql(name) + " >= ?"@,
        Test::AtMost(name) => name_sql(name) + " <= ?"@,
        Test::Reads(name, text) => name_sql(name) + " = '"@ + text + "'"@,
    }
}

/// The number of parameters of a condition.
pub open spec fn width(test: Test) -> nat {
    match test {
        Test::OneOf(_, count) => count,
        Test::NoneOf(_, count) => count,
        Test::Equals(_) => 1,
        Test::AtLeast(_) => 1,
        Test::AtMost(_) => 1,
        Test::Reads(_, _) => 0,
    }
}

/// The rows pass the condition under its parameters. A null passes none.
pub open spec fn passes(test: Test, params: Seq<Cell>, tuple: Tuple) -> bool {
    match test {
        Test::OneOf(name, _) => value_of(tuple, name) != Cell::Null && params.contains(
            value_of(tuple, name),
        ),
        Test::NoneOf(name, _) => value_of(tuple, name) != Cell::Null && !params.contains(
            value_of(tuple, name),
        ),
        Test::Equals(name) => value_of(tuple, name) != Cell::Null && value_of(tuple, name)
            == params[0],
        Test::AtLeast(name) => value_of(tuple, name) != Cell::Null && !cell_less(
            value_of(tuple, name),
            params[0],
        ),
        Test::AtMost(name) => value_of(tuple, name) != Cell::Null && !cell_less(
            params[0],
            value_of(tuple, name),
        ),
        Test::Reads(name, text) => value_of(tuple, name) == Cell::Text(text),
    }
}

/// The number of parameters of a list of conditions.
pub open spec fn widths(tests: Seq<Test>) -> nat
    decreases tests.len(),
{
    if tests.len() == 0 {
        0
    } else {
        widths(tests.drop_last()) + width(tests.last())
    }
}

/// The rows pass all conditions, each under its own parameters, which stand in
/// the order of the conditions.
pub open spec fn all_pass(tests: Seq<Test>, params: Seq<Cell>, tuple: Tuple) -> bool
    decreases tests.len(),
{
    if tests.len() == 0 {
        true
    } else {
        let before = params.len() - width(tests.last());
        &&& all_pass(tests.drop_last(), params.take(before), tuple)
        &&& passes(tests.last(), params.skip(before), tuple)
    }
}

/// The texts of a list of conditions.
pub open spec fn tests_sql(tests: Seq<Test>) -> Seq<Seq<char>> {
    tests.map_values(|test: Test| test_sql(test))
}

/// Two lists of conditions are passed where both are.
pub proof fn lemma_all_pass_add(
    left: Seq<Test>,
    right: Seq<Test>,
    left_params: Seq<Cell>,
    right_params: Seq<Cell>,
    tuple: Tuple,
)
    requires
        right_params.len() == widths(right),
    ensures
        all_pass(left + right, left_params + right_params, tuple) <==> all_pass(
            left,
            left_params,
            tuple,
        ) && all_pass(right, right_params, tuple),
        widths(left + right) == widths(left) + widths(right),
    decreases right.len(),
{
    if right.len() == 0 {
        assert(left + right =~= left);
        assert(left_params + right_params =~= left_params);
    } else {
        let last = right.last();
        let before = right_params.len() - width(last);
        let params = left_params + right_params;
        lemma_all_pass_add(left, right.drop_last(), left_params, right_params.take(before), tuple);
        assert((left + right).drop_last() =~= left + right.drop_last());
        assert((left + right).last() == last);
        assert(params.take(params.len() - width(last)) =~= left_params + right_params.take(before));
        assert(params.skip(params.len() - width(last)) =~= right_params.skip(before));
    }
}

/// One condition is passed as it stands.
pub proof fn lemma_one_test(test: Test, params: Seq<Cell>, tuple: Tuple)
    requires
        params.len() == width(test),
    ensures
        all_pass(seq![test], params, tuple) <==> passes(test, params, tuple),
        widths(seq![test]) == width(test),
{
    let tests = seq![test];
    assert(tests.drop_last() =~= Seq::empty());
    assert(tests.last() == test);
    assert(params.skip(0) =~= params);
    assert(widths(tests.drop_last()) == 0);
    assert(all_pass(tests.drop_last(), params.take(0), tuple));
}

// ---------------------------------------------------------------- joins

/// A join: the table, its alias, and the two columns that have to agree.
pub ghost struct Join {
    pub table: Seq<char>,
    pub alias: Seq<char>,
    pub left: Name,
    pub right: Name,
}

/// The text of a join.
pub open spec fn join_sql(join: Join) -> Seq<char> {
    "JOIN "@ + join.table + " "@ + join.alias + " ON "@ + name_sql(join.left) + " = "@ + name_sql(
        join.right,
    )
}

/// The rows meet a join: one comes from its table, and its columns agree.
pub open spec fn meets(tables: Tables, join: Join, tuple: Tuple) -> bool {
    &&& tables[join.table].contains(tuple[join.alias])
    &&& value_of(tuple, join.left) == value_of(tuple, join.right)
    &&& value_of(tuple, join.left) != Cell::Null
}

/// The rows meet every join of a list.
pub open spec fn meets_all(tables: Tables, joins: Seq<Join>, tuple: Tuple) -> bool {
    forall|i: int| 0 <= i < joins.len() ==> meets(tables, #[trigger] joins[i], tuple)
}

} // verus!
