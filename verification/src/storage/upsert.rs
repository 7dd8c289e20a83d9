//! Upserts as values: the columns of a table, what becomes of each where a row
//! with the same key is stored already, and the statement that says so.

use vstd::prelude::*;
use crate::number::{decimal, push_decimal};
use crate::sql::{Cell, Command, Statement};
use crate::text::{
    copy, join, join2, joined, lemma_less_irreflexive, lemma_less_transitive, opt_text, push_text,
    text_less, texts,
};

verus! {

/// What an upsert does to a column of a row that is stored already.
#[derive(Debug, Clone, Copy, PartialEq, Eq, Structural)]
pub enum Change {
    /// The column is part of the key.
    Key,
    /// The stored value stays.
    Keep,
    /// The new value takes its place.
    Take,
    /// The later of both stays, and a null never takes the place of a value.
    Later,
    /// The new value takes its place, unless it is null.
    Fill,
}

/// A column of an upsert.
#[derive(Debug, Clone, Copy, PartialEq, Eq)]
pub struct Column {
    pub name: &'static str,
    pub change: Change,
}

/// The model of a column: its name and what an upsert does to it.
pub ghost struct Field {
    pub name: Seq<char>,
    pub change: Change,
}

impl View for Column {
    type V = Field;

    open spec fn view(&self) -> Field {
        Field { name: self.name@, change: self.change }
    }
}

/// The models of a list of columns.
pub open spec fn fields(columns: Seq<Column>) -> Seq<Field> {
    columns.map_values(|column: Column| column@)
}

/// A field with a name.
pub open spec fn field(name: Seq<char>, change: Change) -> Field {
    Field { name, change }
}

// ---------------------------------------------------------------- text

/// The names of the first `n` fields.
pub open spec fn names(fields: Seq<Field>, n: int) -> Seq<Seq<char>>
    decreases n,
{
    if n <= 0 {
        Seq::empty()
    } else {
        names(fields, n - 1).push(fields[n - 1].name)
    }
}

/// The first `n` numbered parameters.
pub open spec fn marks(n: int) -> Seq<Seq<char>>
    decreases n,
{
    if n <= 0 {
        Seq::empty()
    } else {
        marks(n - 1).push("?"@ + decimal(n as nat))
    }
}

/// The names of the key among the first `n` fields.
pub open spec fn key_names(fields: Seq<Field>, n: int) -> Seq<Seq<char>>
    decreases n,
{
    if n <= 0 {
        Seq::empty()
    } else if fields[n - 1].change is Key {
        key_names(fields, n - 1).push(fields[n - 1].name)
    } else {
        key_names(fields, n - 1)
    }
}

/// What an upsert sets a column to where the row is stored already.
pub open spec fn assignment(table: Seq<char>, name: Seq<char>, change: Change) -> Option<Seq<char>> {
    let stored = table + "."@ + name;
    let new = "excluded."@ + name;
    match change {
        Change::Key => None,
        Change::Keep => None,
        Change::Take => Some(name + " = "@ + new),
        Change::Later => Some(
            name + " = COALESCE(MAX("@ + new + ", "@ + stored + "), "@ + stored + ", "@ + new
                + ")"@,
        ),
        Change::Fill => Some(name + " = COALESCE("@ + new + ", "@ + stored + ")"@),
    }
}

/// The assignments of the first `n` fields.
pub open spec fn assignments(table: Seq<char>, fields: Seq<Field>, n: int) -> Seq<Seq<char>>
    decreases n,
{
    if n <= 0 {
        Seq::empty()
    } else {
        match assignment(table, fields[n - 1].name, fields[n - 1].change) {
            Some(text) => assignments(table, fields, n - 1).push(text),
            None => assignments(table, fields, n - 1),
        }
    }
}

/// The text of an upsert.
#[verifier::opaque]
pub open spec fn upsert_sql(table: Seq<char>, fields: Seq<Field>) -> Seq<char> {
    let n = fields.len() as int;
    "INSERT INTO "@ + table + " ("@ + joined(names(fields, n), ", "@) + ") VALUES ("@ + joined(
        marks(n),
        ", "@,
    ) + ") ON CONFLICT ("@ + joined(key_names(fields, n), ", "@) + ") DO UPDATE SET "@ + joined(
        assignments(table, fields, n),
        ", "@,
    )
}

/// Write what an upsert sets a column to.
fn assign(table: &str, column: &Column) -> (text: Option<String>)
    ensures
        opt_text(text) == assignment(table@, column@.name, column@.change),
{
    let mut stored = join2(table, ".");
    stored.append(column.name);
    let new = join2("excluded.", column.name);
    match column.change {
        Change::Key => None,
        Change::Keep => None,
        Change::Take => {
            let mut text = join2(column.name, " = ");
            text.append(&new);
            Some(text)
        },
        Change::Later => {
            let mut text = join2(column.name, " = COALESCE(MAX(");
            text.append(&new);
            text.append(", ");
            text.append(&stored);
            text.append("), ");
            text.append(&stored);
            text.append(", ");
            text.append(&new);
            text.append(")");
            Some(text)
        },
        Change::Fill => {
            let mut text = join2(column.name, " = COALESCE(");
            text.append(&new);
            text.append(", ");
            text.append(&stored);
            text.append(")");
            Some(text)
        },
    }
}

/// The upsert of a row of the table. Its parameters are the values of the
/// columns, in their order.
pub fn upsert(table: &str, columns: &Vec<Column>) -> (statement: Statement)
    ensures
        statement@ == (Command {
            sql: upsert_sql(table@, fields(columns@)),
            params: Seq::empty(),
        }),
{
    let ghost all = fields(columns@);
    let mut listed: Vec<String> = Vec::new();
    let mut numbered: Vec<String> = Vec::new();
    let mut keys: Vec<String> = Vec::new();
    let mut set: Vec<String> = Vec::new();
    let mut i: usize = 0;
    assert(texts(listed@) =~= names(all, 0));
    assert(texts(numbered@) =~= marks(0));
    assert(texts(keys@) =~= key_names(all, 0));
    assert(texts(set@) =~= assignments(table@, all, 0));
    while i < columns.len()
        invariant
            i <= columns.len(),
            all == fields(columns@),
            texts(listed@) == names(all, i as int),
            texts(numbered@) == marks(i as int),
            texts(keys@) == key_names(all, i as int),
            texts(set@) == assignments(table@, all, i as int),
        decreases columns.len() - i,
    {
        let column = &columns[i];
        assert(all[i as int] == column@);
        push_text(&mut listed, copy(column.name));
        let mut mark = copy("?");
        push_decimal(&mut mark, i as u64 + 1);
        push_text(&mut numbered, mark);
        if let Change::Key = column.change {
            push_text(&mut keys, copy(column.name));
        }
        if let Some(text) = assign(table, column) {
            push_text(&mut set, text);
        }
        i = i + 1;
    }
    let mut sql = join2("INSERT INTO ", table);
    sql.append(" (");
    sql.append(&join(&listed, ", "));
    sql.append(") VALUES (");
    sql.append(&join(&numbered, ", "));
    sql.append(") ON CONFLICT (");
    sql.append(&join(&keys, ", "));
    sql.append(") DO UPDATE SET ");
    sql.append(&join(&set, ", "));
    proof {
        reveal(upsert_sql);
    }
    Statement::new(&sql)
}

/// A column with a name.
pub fn column(name: &'static str, change: Change) -> (column: Column)
    ensures
        column@ == field(name@, change),
{
    Column { name, change }
}

/// The text of a statement that stores a row unless its key is there already.
#[verifier::opaque]
pub open spec fn ignore_sql(table: Seq<char>, fields: Seq<Field>) -> Seq<char> {
    let n = fields.len() as int;
    "INSERT OR IGNORE INTO "@ + table + " ("@ + joined(names(fields, n), ", "@) + ") VALUES ("@
        + joined(marks(n), ", "@) + ")"@
}

/// The statement that stores a row of the table unless its key is there already.
/// Its parameters are the values of the columns, in their order.
pub fn insert_or_ignore(table: &str, columns: &Vec<Column>) -> (statement: Statement)
    ensures
        statement@ == (Command {
            sql: ignore_sql(table@, fields(columns@)),
            params: Seq::empty(),
        }),
{
    let ghost all = fields(columns@);
    let mut listed: Vec<String> = Vec::new();
    let mut numbered: Vec<String> = Vec::new();
    let mut i: usize = 0;
    assert(texts(listed@) =~= names(all, 0));
    assert(texts(numbered@) =~= marks(0));
    while i < columns.len()
        invariant
            i <= columns.len(),
            all == fields(columns@),
            texts(listed@) == names(all, i as int),
            texts(numbered@) == marks(i as int),
        decreases columns.len() - i,
    {
        assert(all[i as int] == columns@[i as int]@);
        push_text(&mut listed, copy(columns[i].name));
        let mut mark = copy("?");
        push_decimal(&mut mark, i as u64 + 1);
        push_text(&mut numbered, mark);
        i = i + 1;
    }
    let mut sql = join2("INSERT OR IGNORE INTO ", table);
    sql.append(" (");
    sql.append(&join(&listed, ", "));
    sql.append(") VALUES (");
    sql.append(&join(&numbered, ", "));
    sql.append(")");
    proof {
        reveal(ignore_sql);
    }
    Statement::new(&sql)
}

// ---------------------------------------------------------------- effect

/// The order of stored values: null, then numbers, then texts by their
/// characters.
pub open spec fn cell_less(left: Cell, right: Cell) -> bool {
    match (left, right) {
        (_, Cell::Null) => false,
        (Cell::Null, _) => true,
        (Cell::Integer(a), Cell::Integer(b)) => a < b,
        (Cell::Integer(_), Cell::Text(_)) => true,
        (Cell::Text(_), Cell::Integer(_)) => false,
        (Cell::Text(a), Cell::Text(b)) => text_less(a, b),
    }
}

/// The later of two values.
pub open spec fn later_cell(left: Cell, right: Cell) -> Cell {
    if cell_less(left, right) {
        right
    } else {
        left
    }
}

/// What a column of a stored row holds after an upsert.
pub open spec fn cell_after(change: Change, stored: Cell, new: Cell) -> Cell {
    match change {
        Change::Key => stored,
        Change::Keep => stored,
        Change::Take => new,
        Change::Later => later_cell(stored, new),
        Change::Fill => if new is Null {
            stored
        } else {
            new
        },
    }
}

/// The key of a row, from its first `n` columns.
pub open spec fn key_of(fields: Seq<Field>, row: Seq<Cell>, n: int) -> Seq<Cell>
    decreases n,
{
    if n <= 0 {
        Seq::empty()
    } else if fields[n - 1].change is Key {
        key_of(fields, row, n - 1).push(row[n - 1])
    } else {
        key_of(fields, row, n - 1)
    }
}

/// The row that an upsert leaves under its key: the new row where there was
/// none, else the stored one with each column changed as the upsert says.
pub open spec fn row_after(fields: Seq<Field>, stored: Option<Seq<Cell>>, new: Seq<Cell>) -> Seq<
    Cell,
> {
    match stored {
        None => new,
        Some(row) => Seq::new(
            fields.len(),
            |i: int| cell_after(fields[i].change, row[i], new[i]),
        ),
    }
}

/// The row holds a value in the column of that name.
pub open spec fn holds_in(fields: Seq<Field>, row: Seq<Cell>, name: Seq<char>, value: Cell) -> bool {
    exists|i: int|
        0 <= i < fields.len() && i < row.len() && (#[trigger] fields[i]).name == name && row[i]
            == value
}

/// The command is the upsert of a row that holds a value in the column of that
/// name.
pub open spec fn sets(
    command: Command,
    table: Seq<char>,
    fields: Seq<Field>,
    name: Seq<char>,
    value: Cell,
) -> bool {
    &&& command.sql == upsert_sql(table, fields)
    &&& command.params.len() == fields.len()
    &&& holds_in(fields, command.params, name, value)
}

/// The row that the upsert leaves under its key holds a value in the column of
/// that name, whatever was stored there before.
pub open spec fn always_leaves(
    command: Command,
    table: Seq<char>,
    fields: Seq<Field>,
    name: Seq<char>,
    value: Cell,
) -> bool {
    &&& sets(command, table, fields, name, value)
    &&& forall|stored: Option<Seq<Cell>>| #[trigger]
        holds_in(fields, row_after(fields, stored, command.params), name, value)
}

/// An upsert of a stored row leaves the column in that place as it was.
pub open spec fn stays(fields: Seq<Field>, new: Seq<Cell>, at: int) -> bool {
    forall|stored: Seq<Cell>| (#[trigger] row_after(fields, Some(stored), new))[at] == stored[at]
}

/// An upsert of a stored row fills the column in that place: with the new value,
/// unless there is none.
pub open spec fn is_filled(fields: Seq<Field>, new: Seq<Cell>, at: int) -> bool {
    forall|stored: Seq<Cell>|
        (#[trigger] row_after(fields, Some(stored), new))[at] == (if new[at] is Null {
            stored[at]
        } else {
            new[at]
        })
}

/// The value is stored with the first upsert of the row in the column of that name,
/// and stays there.
pub open spec fn keeps_first(
    command: Command,
    table: Seq<char>,
    fields: Seq<Field>,
    name: Seq<char>,
    value: Cell,
) -> bool {
    &&& sets(command, table, fields, name, value)
    &&& exists|i: int|
        0 <= i < fields.len() && (#[trigger] fields[i]).name == name && command.params[i] == value
            && stays(fields, command.params, i)
}

/// The value is stored with every upsert of the row in the column of that name,
/// unless it is null and there is one already.
pub open spec fn fills(
    command: Command,
    table: Seq<char>,
    fields: Seq<Field>,
    name: Seq<char>,
    value: Cell,
) -> bool {
    &&& sets(command, table, fields, name, value)
    &&& exists|i: int|
        0 <= i < fields.len() && (#[trigger] fields[i]).name == name && command.params[i] == value
            && is_filled(fields, command.params, i)
}

/// The value of the column in that place reaches its row: on its first upsert,
/// and, as the column changes, on every later one.
pub proof fn lemma_reaches_its_column(
    command: Command,
    table: Seq<char>,
    fields: Seq<Field>,
    at: int,
)
    requires
        command.sql == upsert_sql(table, fields),
        command.params.len() == fields.len(),
        0 <= at < fields.len(),
    ensures
        sets(command, table, fields, fields[at].name, command.params[at]),
        fields[at].change is Take ==> always_leaves(
            command,
            table,
            fields,
            fields[at].name,
            command.params[at],
        ),
        fields[at].change is Keep || fields[at].change is Key ==> keeps_first(
            command,
            table,
            fields,
            fields[at].name,
            command.params[at],
        ),
        fields[at].change is Fill ==> fills(
            command,
            table,
            fields,
            fields[at].name,
            command.params[at],
        ),
{
    assert(fields[at].name == fields[at].name);
    if fields[at].change is Keep || fields[at].change is Key {
        assert(stays(fields, command.params, at));
    }
    if fields[at].change is Fill {
        assert(is_filled(fields, command.params, at));
    }
    if fields[at].change is Take {
        assert forall|stored: Option<Seq<Cell>>| #[trigger]
            holds_in(
                fields,
                row_after(fields, stored, command.params),
                fields[at].name,
                command.params[at],
            ) by {
            assert(row_after(fields, stored, command.params)[at] == command.params[at]);
        }
    }
}

/// The row under a key.
pub open spec fn row_at(rows: Map<Seq<Cell>, Seq<Cell>>, key: Seq<Cell>) -> Option<Seq<Cell>> {
    if rows.dom().contains(key) {
        Some(rows[key])
    } else {
        None
    }
}

/// The rows of a table, by their keys, as an upsert of a row leaves them.
pub open spec fn rows_after(
    fields: Seq<Field>,
    rows: Map<Seq<Cell>, Seq<Cell>>,
    new: Seq<Cell>,
) -> Map<Seq<Cell>, Seq<Cell>> {
    let key = key_of(fields, new, fields.len() as int);
    rows.insert(key, row_after(fields, row_at(rows, key), new))
}

// ---------------------------------------------------------------- laws

/// The later of two values is one of them and below neither, and a null gives
/// way to any value.
pub proof fn law_later_is_below_neither(left: Cell, right: Cell)
    ensures
        later_cell(left, right) == left || later_cell(left, right) == right,
        !cell_less(later_cell(left, right), left),
        !cell_less(later_cell(left, right), right),
        later_cell(left, Cell::Null) == left,
        later_cell(Cell::Null, right) == right,
{
    if let Cell::Text(a) = left {
        lemma_less_irreflexive(a);
        if let Cell::Text(b) = right {
            if text_less(a, b) && text_less(b, a) {
                lemma_less_transitive(a, b, a);
            }
        }
    }
    if let Cell::Text(b) = right {
        lemma_less_irreflexive(b);
    }
}

/// An upsert touches the row under its key alone, and there is one row under it
/// afterwards.
pub proof fn law_upserts_touch_one_row(
    fields: Seq<Field>,
    rows: Map<Seq<Cell>, Seq<Cell>>,
    new: Seq<Cell>,
    other: Seq<Cell>,
)
    ensures
        ({
            let key = key_of(fields, new, fields.len() as int);
            let after = rows_after(fields, rows, new);
            &&& row_at(after, key) == Some(row_after(fields, row_at(rows, key), new))
            &&& other != key ==> row_at(after, other) == row_at(rows, other)
        }),
{
}

/// What an upsert says of a column is what becomes of it: a key and a column that
/// keeps its first value are not assigned, one that takes new values is assigned the
/// new one, one that is filled the new one or else the stored one, and one that only
/// moves on the later of the two.
pub proof fn law_an_assignment_says_what_becomes_of_its_column(table: Seq<char>, name: Seq<char>)
    ensures
        assignment(table, name, Change::Key) is None,
        assignment(table, name, Change::Keep) is None,
        assignment(table, name, Change::Take) == Some(name + " = excluded."@ + name),
        assignment(table, name, Change::Fill) == Some(
            name + " = COALESCE(excluded."@ + name + ", "@ + table + "."@ + name + ")"@,
        ),
        assignment(table, name, Change::Later) == Some(
            name + " = COALESCE(MAX(excluded."@ + name + ", "@ + table + "."@ + name + "), "@
                + table + "."@ + name + ", excluded."@ + name + ")"@,
        ),
{
    reveal_strlit(" = ");
    reveal_strlit("excluded.");
    reveal_strlit(" = excluded.");
    reveal_strlit(" = COALESCE(");
    reveal_strlit(" = COALESCE(excluded.");
    reveal_strlit(" = COALESCE(MAX(");
    reveal_strlit(" = COALESCE(MAX(excluded.");
    reveal_strlit(", ");
    reveal_strlit(", excluded.");
    assert(name + " = "@ + ("excluded."@ + name) =~= name + " = excluded."@ + name);
    let stored = table + "."@ + name;
    let new = "excluded."@ + name;
    assert(name + " = COALESCE("@ + new + ", "@ + stored + ")"@ =~= name
        + " = COALESCE(excluded."@ + name + ", "@ + table + "."@ + name + ")"@);
    assert(name + " = COALESCE(MAX("@ + new + ", "@ + stored + "), "@ + stored + ", "@ + new
        + ")"@ =~= name + " = COALESCE(MAX(excluded."@ + name + ", "@ + table + "."@ + name + "), "@
        + table + "."@ + name + ", excluded."@ + name + ")"@);
}

} // verus!
