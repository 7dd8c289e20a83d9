//! SQL statements as values: the text and its parameters, in order.

use vstd::prelude::*;
use crate::error::{is_invalid, Error};
use crate::text::{copy, opt_str, opt_text};

verus! {

/// One value bound to a statement or read from a row.
#[derive(Debug, Clone, PartialEq, Eq)]
pub enum SqlValue {
    Null,
    Integer(i64),
    Text(String),
}

/// The model of a value.
pub ghost enum Cell {
    Null,
    Integer(int),
    Text(Seq<char>),
}

impl View for SqlValue {
    type V = Cell;

    open spec fn view(&self) -> Cell {
        match *self {
            SqlValue::Null => Cell::Null,
            SqlValue::Integer(n) => Cell::Integer(n as int),
            SqlValue::Text(text) => Cell::Text(text@),
        }
    }
}

/// A text, or null.
pub open spec fn text_cell(text: Option<Seq<char>>) -> Cell {
    match text {
        Some(text) => Cell::Text(text),
        None => Cell::Null,
    }
}

/// A flag as SQLite stores it.
pub open spec fn flag_cell(flag: bool) -> Cell {
    if flag {
        Cell::Integer(1)
    } else {
        Cell::Integer(0)
    }
}

/// A number, or null.
pub open spec fn int_cell(value: Option<i64>) -> Cell {
    match value {
        Some(value) => Cell::Integer(value as int),
        None => Cell::Null,
    }
}

/// The models of a list of values.
pub open spec fn cells(values: Seq<SqlValue>) -> Seq<Cell> {
    Seq::new(values.len(), |i: int| values[i]@)
}

/// A statement with its parameters. The first parameter is `?1` in the text.
#[derive(Debug, Clone, PartialEq, Eq)]
pub struct Statement {
    pub sql: String,
    pub params: Vec<SqlValue>,
}

/// The model of a statement.
#[verifier::ext_equal]
pub ghost struct Command {
    pub sql: Seq<char>,
    pub params: Seq<Cell>,
}

impl View for Statement {
    type V = Command;

    open spec fn view(&self) -> Command {
        Command { sql: self.sql@, params: cells(self.params@) }
    }
}

/// The models of a list of statements.
pub open spec fn commands(statements: Seq<Statement>) -> Seq<Command> {
    Seq::new(statements.len(), |i: int| statements[i]@)
}

/// Appending a statement appends its model.
pub proof fn lemma_commands_push(statements: Seq<Statement>, statement: Statement)
    ensures
        commands(statements.push(statement)) == commands(statements).push(statement@),
{
    assert(commands(statements.push(statement)) =~= commands(statements).push(statement@));
}

/// Appending statements appends their models.
pub proof fn lemma_commands_add(left: Seq<Statement>, right: Seq<Statement>)
    ensures
        commands(left + right) == commands(left) + commands(right),
{
    assert(commands(left + right) =~= commands(left) + commands(right));
}

/// Move the statements of `more` to the end of `statements`.
pub fn extend(statements: &mut Vec<Statement>, more: Vec<Statement>)
    ensures
        commands(final(statements)@) == commands(old(statements)@) + commands(more@),
{
    let mut more = more;
    let ghost before = statements@;
    let ghost added = more@;
    statements.append(&mut more);
    proof {
        lemma_commands_add(before, added);
        assert(statements@ =~= before + added);
    }
}

/// Append one statement.
pub fn push_statement(statements: &mut Vec<Statement>, statement: Statement)
    ensures
        commands(final(statements)@) == commands(old(statements)@).push(statement@),
{
    proof {
        lemma_commands_push(statements@, statement);
    }
    statements.push(statement);
}

/// A list of one statement.
pub fn single(statement: Statement) -> (statements: Vec<Statement>)
    ensures
        commands(statements@) == seq![statement@],
{
    let mut statements = Vec::new();
    statements.push(statement);
    assert(commands(statements@) =~= seq![statement@]);
    statements
}

/// Statements to run in order, and the error, if any, that then ends the
/// operation.
#[derive(Debug, PartialEq, Eq)]
pub struct Batch {
    pub statements: Vec<Statement>,
    pub failure: Option<Error>,
}

/// The batch runs the given commands and succeeds.
pub open spec fn succeeds_with(batch: Batch, wanted: Seq<Command>) -> bool {
    commands(batch.statements@) == wanted && batch.failure is None
}

/// The batch runs the given commands and then refuses its input.
pub open spec fn refuses_after(batch: Batch, wanted: Seq<Command>, message: Seq<char>) -> bool {
    &&& commands(batch.statements@) == wanted
    &&& batch.failure matches Some(error) && is_invalid(error, message)
}

impl Statement {
    /// A statement without parameters.
    pub fn new(sql: &str) -> (statement: Statement)
        ensures
            statement@ == (Command { sql: sql@, params: Seq::empty() }),
    {
        let statement = Statement { sql: copy(sql), params: Vec::new() };
        assert(cells(statement.params@) =~= Seq::empty());
        statement
    }

    /// The statement with one more parameter.
    pub fn bind(self, value: SqlValue) -> (statement: Statement)
        ensures
            statement@ == (Command { sql: self@.sql, params: self@.params.push(value@) }),
    {
        let mut statement = self;
        let ghost before = statement.params@;
        statement.params.push(value);
        assert(cells(statement.params@) =~= cells(before).push(value@));
        statement
    }

    /// The statement with a text as its next parameter.
    pub fn text(self, value: &str) -> (statement: Statement)
        ensures
            statement@ == (Command { sql: self@.sql, params: self@.params.push(Cell::Text(value@)) }),
    {
        self.bind(SqlValue::Text(copy(value)))
    }

    /// The statement with a text or null as its next parameter.
    pub fn opt(self, value: Option<&str>) -> (statement: Statement)
        ensures
            statement@ == (Command {
                sql: self@.sql,
                params: self@.params.push(text_cell(opt_str(value))),
            }),
    {
        match value {
            Some(value) => self.bind(SqlValue::Text(copy(value))),
            None => self.bind(SqlValue::Null),
        }
    }

    /// The statement with a stored text or null as its next parameter.
    pub fn opt_string(self, value: &Option<String>) -> (statement: Statement)
        ensures
            statement@ == (Command {
                sql: self@.sql,
                params: self@.params.push(text_cell(opt_text(*value))),
            }),
    {
        match value {
            Some(value) => self.bind(SqlValue::Text(copy(value.as_str()))),
            None => self.bind(SqlValue::Null),
        }
    }

    /// The statement with a number as its next parameter.
    pub fn integer(self, value: i64) -> (statement: Statement)
        ensures
            statement@ == (Command {
                sql: self@.sql,
                params: self@.params.push(Cell::Integer(value as int)),
            }),
    {
        self.bind(SqlValue::Integer(value))
    }

    /// The statement with a number or null as its next parameter.
    pub fn opt_integer(self, value: Option<i64>) -> (statement: Statement)
        ensures
            statement@ == (Command { sql: self@.sql, params: self@.params.push(int_cell(value)) }),
    {
        match value {
            Some(value) => self.bind(SqlValue::Integer(value)),
            None => self.bind(SqlValue::Null),
        }
    }

    /// The statement with a flag as its next parameter.
    pub fn flag(self, value: bool) -> (statement: Statement)
        ensures
            statement@ == (Command { sql: self@.sql, params: self@.params.push(flag_cell(value)) }),
    {
        self.bind(
            SqlValue::Integer(
                if value {
                    1
                } else {
                    0
                },
            ),
        )
    }
}

} // verus!
