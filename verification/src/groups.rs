//! Custom local groups of users or repositories.

use vstd::prelude::*;
use crate::error::Error;
use crate::query::{bare_login, to_bare_login};
use crate::sql::{
    commands, push_statement, single, text_cell, Batch, Cell, Command, Statement,
};
use crate::text::{join3, lower, lowercase, opt_str, texts};

verus! {

/// Which kind a named group is.
#[derive(Debug, Clone, Copy, PartialEq, Eq, Structural)]
pub enum GroupKind {
    User,
    Repo,
}

/// The table of a kind of groups.
pub open spec fn group_table(kind: GroupKind) -> Seq<char> {
    match kind {
        GroupKind::User => "user_group"@,
        GroupKind::Repo => "repo_group"@,
    }
}

/// The table of the members of a kind of groups.
pub open spec fn member_table(kind: GroupKind) -> Seq<char> {
    match kind {
        GroupKind::User => "user_group_member"@,
        GroupKind::Repo => "repo_group_member"@,
    }
}

/// The column of the members of a kind of groups.
pub open spec fn member_column(kind: GroupKind) -> Seq<char> {
    match kind {
        GroupKind::User => "login"@,
        GroupKind::Repo => "repo"@,
    }
}

/// The group table, the member table and the member column of a kind.
pub fn tables(kind: GroupKind) -> (names: (&'static str, &'static str, &'static str))
    ensures
        names.0@ == group_table(kind),
        names.1@ == member_table(kind),
        names.2@ == member_column(kind),
{
    match kind {
        GroupKind::User => ("user_group", "user_group_member", "login"),
        GroupKind::Repo => ("repo_group", "repo_group_member", "repo"),
    }
}

/// A member as its table holds it: users by their bare logins, so that every
/// bare-login read can match them, and repositories in lower case.
pub open spec fn stored_member(kind: GroupKind, member: Seq<char>) -> Seq<char> {
    match kind {
        GroupKind::User => bare_login(member),
        GroupKind::Repo => lowercase(member),
    }
}

fn member_text(kind: GroupKind, member: &str) -> (stored: String)
    ensures
        stored@ == stored_member(kind, member@),
{
    match kind {
        GroupKind::User => to_bare_login(member),
        GroupKind::Repo => lower(member),
    }
}

/// The statement that creates a group.
pub open spec fn create_sql(kind: GroupKind) -> Seq<char> {
    "INSERT INTO "@ + group_table(kind) + " (name, description) VALUES (?1, ?2)
             ON CONFLICT (name) DO UPDATE SET description = COALESCE(excluded.description, "@
        + group_table(kind) + ".description)"@
}

/// Create a group, or update its description.
pub fn create_group(kind: GroupKind, name: &str, description: Option<&str>) -> (statement:
    Statement)
    ensures
        statement@ == (Command {
            sql: create_sql(kind),
            params: seq![Cell::Text(name@), text_cell(opt_str(description))],
        }),
{
    let (group, _, _) = tables(kind);
    let mut sql = join3(
        "INSERT INTO ",
        group,
        " (name, description) VALUES (?1, ?2)
             ON CONFLICT (name) DO UPDATE SET description = COALESCE(excluded.description, ",
    );
    sql.append(group);
    sql.append(".description)");
    Statement::new(&sql).text(name).opt(description)
}

/// The command that removes all members of a group.
pub open spec fn clear_members(kind: GroupKind, name: Seq<char>) -> Command {
    Command {
        sql: "DELETE FROM "@ + member_table(kind) + " WHERE group_name = ?1"@,
        params: seq![Cell::Text(name)],
    }
}

fn clear_statement(kind: GroupKind, name: &str) -> (statement: Statement)
    ensures
        statement@ == clear_members(kind, name@),
{
    let (_, members, _) = tables(kind);
    Statement::new(&join3("DELETE FROM ", members, " WHERE group_name = ?1")).text(name)
}

/// The command that removes a group.
pub open spec fn remove_group(kind: GroupKind, name: Seq<char>) -> Command {
    Command {
        sql: "DELETE FROM "@ + group_table(kind) + " WHERE name = ?1"@,
        params: seq![Cell::Text(name)],
    }
}

/// Delete a group: its members first, then the group. Whether there was such a
/// group is decided by `deletion_outcome` on the second statement.
pub fn delete_group(kind: GroupKind, name: &str) -> (statements: Vec<Statement>)
    ensures
        commands(statements@) == seq![clear_members(kind, name@), remove_group(kind, name@)],
{
    let (group, _, _) = tables(kind);
    let remove = Statement::new(&join3("DELETE FROM ", group, " WHERE name = ?1")).text(name);
    assert(remove@ =~= remove_group(kind, name@));
    let mut statements = single(clear_statement(kind, name));
    push_statement(&mut statements, remove);
    assert(commands(statements@) =~= seq![clear_members(kind, name@), remove_group(kind, name@)]);
    statements
}

/// The error names a group that does not exist.
pub open spec fn is_missing_group(error: Error, name: Seq<char>) -> bool {
    error matches Error::NotFound(detail) && detail@ == "group '"@ + name + "'"@
}

fn missing_group(name: &str) -> (error: Error)
    ensures
        is_missing_group(error, name@),
{
    Error::NotFound(join3("group '", name, "'"))
}

/// A group that was not there cannot be deleted.
pub fn deletion_outcome(removed: usize, name: &str) -> (outcome: Result<(), Error>)
    ensures
        if removed == 0 {
            outcome is Err && is_missing_group(outcome->Err_0, name@)
        } else {
            outcome is Ok
        },
{
    if removed == 0 {
        Err(missing_group(name))
    } else {
        Ok(())
    }
}

/// The query for a group by its name.
pub open spec fn find_group(kind: GroupKind, name: Seq<char>) -> Command {
    Command {
        sql: "SELECT name FROM "@ + group_table(kind) + " WHERE name = ?1"@,
        params: seq![Cell::Text(name)],
    }
}

/// The query for a group by its name.
pub fn group_exists(kind: GroupKind, name: &str) -> (statement: Statement)
    ensures
        statement@ == find_group(kind, name@),
{
    let (group, _, _) = tables(kind);
    Statement::new(&join3("SELECT name FROM ", group, " WHERE name = ?1")).text(name)
}

/// The command that adds one member.
pub open spec fn insert_member(kind: GroupKind, name: Seq<char>, member: Seq<char>) -> Command {
    Command {
        sql: "INSERT OR IGNORE INTO "@ + member_table(kind) + " (group_name, "@ + member_column(
            kind,
        ) + ") VALUES (?1, ?2)"@,
        params: seq![Cell::Text(name), Cell::Text(stored_member(kind, member))],
    }
}

/// The commands that add the first `n` members.
pub open spec fn insert_members(
    kind: GroupKind,
    name: Seq<char>,
    members: Seq<Seq<char>>,
    n: int,
) -> Seq<Command>
    decreases n,
{
    if n <= 0 {
        Seq::empty()
    } else {
        insert_members(kind, name, members, n - 1).push(insert_member(kind, name, members[n - 1]))
    }
}

/// The batch runs the commands, and fails behind them where the group is
/// missing.
pub open spec fn runs_for_group(
    batch: Batch,
    wanted: Seq<Command>,
    missing: bool,
    name: Seq<char>,
) -> bool {
    &&& commands(batch.statements@) == wanted
    &&& if missing {
        batch.failure matches Some(error) && is_missing_group(error, name)
    } else {
        batch.failure is None
    }
}

fn push_members(statements: &mut Vec<Statement>, kind: GroupKind, name: &str, members: &Vec<String>)
    ensures
        commands(final(statements)@) == commands(old(statements)@) + insert_members(
            kind,
            name@,
            texts(members@),
            members@.len() as int,
        ),
{
    let (_, table, column) = tables(kind);
    let mut sql = join3("INSERT OR IGNORE INTO ", table, " (group_name, ");
    sql.append(column);
    sql.append(") VALUES (?1, ?2)");
    let ghost before = commands(statements@);
    let mut i: usize = 0;
    assert(before + insert_members(kind, name@, texts(members@), 0) =~= before);
    while i < members.len()
        invariant
            i <= members.len(),
            sql@ == insert_member(kind, name@, Seq::empty()).sql,
            commands(statements@) == before + insert_members(
                kind,
                name@,
                texts(members@),
                i as int,
            ),
        decreases members.len() - i,
    {
        let statement = Statement::new(&sql).text(name).text(
            &member_text(kind, members[i].as_str()),
        );
        assert(statement@ =~= insert_member(kind, name@, texts(members@)[i as int]));
        push_statement(statements, statement);
        assert(before + insert_members(kind, name@, texts(members@), i + 1) =~= (before
            + insert_members(kind, name@, texts(members@), i as int)).push(statement@));
        i = i + 1;
    }
}

/// Add members to a group, given whether the group was found.
pub fn add_members(kind: GroupKind, name: &str, members: &Vec<String>, found: bool) -> (batch:
    Batch)
    ensures
        runs_for_group(
            batch,
            if found {
                insert_members(kind, name@, texts(members@), members@.len() as int)
            } else {
                Seq::empty()
            },
            !found,
            name@,
        ),
{
    let mut statements: Vec<Statement> = Vec::new();
    assert(commands(statements@) =~= Seq::empty());
    if !found {
        return Batch { statements, failure: Some(missing_group(name)) };
    }
    push_members(&mut statements, kind, name, members);
    assert(Seq::empty() + insert_members(kind, name@, texts(members@), members@.len() as int)
        =~= insert_members(kind, name@, texts(members@), members@.len() as int));
    Batch { statements, failure: None }
}

/// The command that removes one member.
pub open spec fn remove_member(kind: GroupKind, name: Seq<char>, member: Seq<char>) -> Command {
    Command {
        sql: "DELETE FROM "@ + member_table(kind) + " WHERE group_name = ?1 AND "@ + member_column(
            kind,
        ) + " = ?2"@,
        params: seq![Cell::Text(name), Cell::Text(stored_member(kind, member))],
    }
}

/// The commands that remove the first `n` members.
pub open spec fn remove_commands(
    kind: GroupKind,
    name: Seq<char>,
    members: Seq<Seq<char>>,
    n: int,
) -> Seq<Command>
    decreases n,
{
    if n <= 0 {
        Seq::empty()
    } else {
        remove_commands(kind, name, members, n - 1).push(remove_member(kind, name, members[n - 1]))
    }
}

/// Remove members from a group.
pub fn remove_members(kind: GroupKind, name: &str, members: &Vec<String>) -> (statements: Vec<
    Statement,
>)
    ensures
        commands(statements@) == remove_commands(
            kind,
            name@,
            texts(members@),
            members@.len() as int,
        ),
{
    let (_, table, column) = tables(kind);
    let mut sql = join3("DELETE FROM ", table, " WHERE group_name = ?1 AND ");
    sql.append(column);
    sql.append(" = ?2");
    let mut statements: Vec<Statement> = Vec::new();
    let mut i: usize = 0;
    assert(commands(statements@) =~= remove_commands(kind, name@, texts(members@), 0));
    while i < members.len()
        invariant
            i <= members.len(),
            sql@ == remove_member(kind, name@, Seq::empty()).sql,
            commands(statements@) == remove_commands(kind, name@, texts(members@), i as int),
        decreases members.len() - i,
    {
        let statement = Statement::new(&sql).text(name).text(
            &member_text(kind, members[i].as_str()),
        );
        assert(statement@ =~= remove_member(kind, name@, texts(members@)[i as int]));
        push_statement(&mut statements, statement);
        i = i + 1;
    }
    statements
}

/// Replace the entire member set, given whether the group was found.
pub fn set_members(kind: GroupKind, name: &str, members: &Vec<String>, found: bool) -> (batch:
    Batch)
    ensures
        runs_for_group(
            batch,
            if found {
                seq![clear_members(kind, name@)] + insert_members(
                    kind,
                    name@,
                    texts(members@),
                    members@.len() as int,
                )
            } else {
                seq![clear_members(kind, name@)]
            },
            !found,
            name@,
        ),
{
    let mut statements = single(clear_statement(kind, name));
    if !found {
        return Batch { statements, failure: Some(missing_group(name)) };
    }
    push_members(&mut statements, kind, name, members);
    Batch { statements, failure: None }
}

/// The query for the members of a group.
pub open spec fn list_members(kind: GroupKind, name: Seq<char>) -> Command {
    Command {
        sql: "SELECT "@ + member_column(kind) + " FROM "@ + member_table(kind)
            + " WHERE group_name = ?1 ORDER BY 1"@,
        params: seq![Cell::Text(name)],
    }
}

/// The query for the members of a group, given whether the group was found.
pub fn members(kind: GroupKind, name: &str, found: bool) -> (outcome: Result<Statement, Error>)
    ensures
        if found {
            outcome is Ok && outcome->Ok_0@ == list_members(kind, name@)
        } else {
            outcome is Err && is_missing_group(outcome->Err_0, name@)
        },
{
    if !found {
        return Err(missing_group(name));
    }
    let (_, table, column) = tables(kind);
    let mut sql = join3("SELECT ", column, " FROM ");
    sql.append(table);
    sql.append(" WHERE group_name = ?1 ORDER BY 1");
    Ok(Statement::new(&sql).text(name))
}

/// The query for all groups of a kind with their member counts.
pub open spec fn list_sql(kind: GroupKind) -> Seq<char> {
    "SELECT g.name, g.description, COUNT(m.group_name)
         FROM "@ + group_table(kind) + " g
         LEFT JOIN "@ + member_table(kind) + " m ON m.group_name = g.name
         GROUP BY g.name ORDER BY g.name"@
}

/// The query for all groups of a kind with their member counts.
pub fn list_groups(kind: GroupKind) -> (statement: Statement)
    ensures
        statement@ == (Command { sql: list_sql(kind), params: Seq::empty() }),
{
    let (group, table, _) = tables(kind);
    let mut sql = join3(
        "SELECT g.name, g.description, COUNT(m.group_name)
         FROM ",
        group,
        " g
         LEFT JOIN ",
    );
    sql.append(table);
    sql.append(" m ON m.group_name = g.name
         GROUP BY g.name ORDER BY g.name");
    Statement::new(&sql)
}

/// The kind that a group name refers to, given which groups were found.
pub open spec fn kind_found(user_exists: bool, repo_exists: bool) -> Option<GroupKind> {
    if user_exists {
        Some(GroupKind::User)
    } else if repo_exists {
        Some(GroupKind::Repo)
    } else {
        None
    }
}

/// Find which kind a group name refers to (user first, then repo), given which
/// groups of that name were found.
pub fn kind_of(user_exists: bool, repo_exists: bool, name: &str) -> (outcome: Result<
    GroupKind,
    Error,
>)
    ensures
        match kind_found(user_exists, repo_exists) {
            Some(kind) => outcome is Ok && outcome->Ok_0 == kind,
            None => outcome is Err && is_missing_group(outcome->Err_0, name@),
        },
{
    if user_exists {
        Ok(GroupKind::User)
    } else if repo_exists {
        Ok(GroupKind::Repo)
    } else {
        Err(missing_group(name))
    }
}

/// What one call adds, another can take away: adding and removing a member
/// speak of the same stored member, whatever its spelling.
pub proof fn law_members_are_removed_as_they_were_added(
    kind: GroupKind,
    name: Seq<char>,
    member: Seq<char>,
)
    ensures
        insert_member(kind, name, member).params == remove_member(kind, name, member).params,
{
}

/// The table that holds the members of a kind of groups.
pub open spec fn home_of(kind: GroupKind) -> Seq<char> {
    match kind {
        GroupKind::User => "user_group_member"@,
        GroupKind::Repo => "repo_group_member"@,
    }
}

/// The column that holds the members of a kind of groups.
pub open spec fn name_column(kind: GroupKind) -> Seq<char> {
    match kind {
        GroupKind::User => "login"@,
        GroupKind::Repo => "repo"@,
    }
}

/// The text is how a member of a group is stored: a user by the bare login, a
/// repository in lower case.
pub open spec fn stands_for(kind: GroupKind, stored: Seq<char>, member: Seq<char>) -> bool {
    match kind {
        GroupKind::User => stored == bare_login(member),
        GroupKind::Repo => stored == lowercase(member),
    }
}

/// Somebody on a list is stored as the text.
pub open spec fn is_listed(kind: GroupKind, stored: Seq<char>, members: Seq<Seq<char>>, n: int) -> bool {
    exists|i: int| 0 <= i < n && stands_for(kind, stored, #[trigger] members[i])
}

/// What one command makes of the members of groups, each a group with a member.
pub open spec fn members_after_one(
    command: Command,
    kind: GroupKind,
    held: Set<(Seq<char>, Seq<char>)>,
) -> Set<(Seq<char>, Seq<char>)> {
    let table = home_of(kind);
    let column = name_column(kind);
    if command.sql == "DELETE FROM "@ + table + " WHERE group_name = ?1"@ && command.params.len()
        == 1 {
        held.filter(|pair: (Seq<char>, Seq<char>)| Cell::Text(pair.0) != command.params[0])
    } else if command.params.len() == 2 && command.params[0] is Text && command.params[1] is Text {
        let pair = (command.params[0]->Text_0, command.params[1]->Text_0);
        if command.sql == "INSERT OR IGNORE INTO "@ + table + " (group_name, "@ + column
            + ") VALUES (?1, ?2)"@ {
            held.insert(pair)
        } else if command.sql == "DELETE FROM "@ + table + " WHERE group_name = ?1 AND "@ + column
            + " = ?2"@ {
            held.remove(pair)
        } else {
            held
        }
    } else {
        held
    }
}

/// What commands make of the members of groups, one behind the other.
pub open spec fn members_after(
    list: Seq<Command>,
    kind: GroupKind,
    held: Set<(Seq<char>, Seq<char>)>,
) -> Set<(Seq<char>, Seq<char>)>
    decreases list.len(),
{
    if list.len() == 0 {
        held
    } else {
        members_after_one(list.last(), kind, members_after(list.drop_last(), kind, held))
    }
}

proof fn lemma_group_texts(kind: GroupKind)
    ensures
        home_of(kind) == member_table(kind),
        name_column(kind) == member_column(kind),
        "DELETE FROM "@ + home_of(kind) + " WHERE group_name = ?1 AND "@ + name_column(kind)
            + " = ?2"@ != "INSERT OR IGNORE INTO "@ + home_of(kind) + " (group_name, "@
            + name_column(kind) + ") VALUES (?1, ?2)"@,
{
    reveal_strlit("DELETE FROM ");
    reveal_strlit("INSERT OR IGNORE INTO ");
    let delete = "DELETE FROM "@ + home_of(kind) + " WHERE group_name = ?1 AND "@ + name_column(
        kind,
    ) + " = ?2"@;
    let insert = "INSERT OR IGNORE INTO "@ + home_of(kind) + " (group_name, "@ + name_column(kind)
        + ") VALUES (?1, ?2)"@;
    assert(delete[0] == 'D');
    assert(insert[0] == 'I');
}

proof fn lemma_added(
    kind: GroupKind,
    name: Seq<char>,
    members: Seq<Seq<char>>,
    n: int,
    held: Set<(Seq<char>, Seq<char>)>,
    pair: (Seq<char>, Seq<char>),
)
    requires
        0 <= n <= members.len(),
    ensures
        members_after(insert_members(kind, name, members, n), kind, held).contains(pair) <==> (
        held.contains(pair) || (pair.0 == name && is_listed(kind, pair.1, members, n))),
    decreases n,
{
    lemma_group_texts(kind);
    if n > 0 {
        lemma_added(kind, name, members, n - 1, held, pair);
        let list = insert_members(kind, name, members, n);
        let before = insert_members(kind, name, members, n - 1);
        assert(list.drop_last() =~= before);
        let last = insert_member(kind, name, members[n - 1]);
        assert(list.last() == last);
        let kept = members_after(before, kind, held);
        assert(members_after(list, kind, held) == kept.insert(
            (name, stored_member(kind, members[n - 1])),
        ));
        assert(stands_for(kind, stored_member(kind, members[n - 1]), members[n - 1]));
    }
}

proof fn lemma_removed(
    kind: GroupKind,
    name: Seq<char>,
    members: Seq<Seq<char>>,
    n: int,
    held: Set<(Seq<char>, Seq<char>)>,
    pair: (Seq<char>, Seq<char>),
)
    requires
        0 <= n <= members.len(),
    ensures
        members_after(remove_commands(kind, name, members, n), kind, held).contains(pair) <==> (
        held.contains(pair) && !(pair.0 == name && is_listed(kind, pair.1, members, n))),
    decreases n,
{
    lemma_group_texts(kind);
    if n > 0 {
        lemma_removed(kind, name, members, n - 1, held, pair);
        let list = remove_commands(kind, name, members, n);
        let before = remove_commands(kind, name, members, n - 1);
        assert(list.drop_last() =~= before);
        let last = remove_member(kind, name, members[n - 1]);
        assert(list.last() == last);
        let kept = members_after(before, kind, held);
        assert(members_after(list, kind, held) == kept.remove(
            (name, stored_member(kind, members[n - 1])),
        ));
        assert(stands_for(kind, stored_member(kind, members[n - 1]), members[n - 1]));
    }
}

proof fn lemma_members_behind(
    first: Seq<Command>,
    second: Seq<Command>,
    kind: GroupKind,
    held: Set<(Seq<char>, Seq<char>)>,
)
    ensures
        members_after(first + second, kind, held) == members_after(
            second,
            kind,
            members_after(first, kind, held),
        ),
    decreases second.len(),
{
    let list = first + second;
    if second.len() == 0 {
        assert(list =~= first);
    } else {
        lemma_members_behind(first, second.drop_last(), kind, held);
        assert(list.drop_last() =~= first + second.drop_last());
        assert(list.last() == second.last());
    }
}

/// Adding members leaves a group with those it had and those on the list, removing
/// them leaves it without those on the list, replacing them leaves it with those
/// on the list alone, and clearing leaves it with none. Other groups keep their
/// members.
pub proof fn law_a_group_has_the_members_that_it_was_given(
    kind: GroupKind,
    name: Seq<char>,
    members: Seq<Seq<char>>,
    held: Set<(Seq<char>, Seq<char>)>,
    pair: (Seq<char>, Seq<char>),
)
    ensures
        members_after(
            insert_members(kind, name, members, members.len() as int),
            kind,
            held,
        ).contains(pair) <==> (held.contains(pair) || (pair.0 == name && is_listed(
            kind,
            pair.1,
            members,
            members.len() as int,
        ))),
        members_after(
            remove_commands(kind, name, members, members.len() as int),
            kind,
            held,
        ).contains(pair) <==> (held.contains(pair) && !(pair.0 == name && is_listed(
            kind,
            pair.1,
            members,
            members.len() as int,
        ))),
        members_after(
            seq![clear_members(kind, name)] + insert_members(
                kind,
                name,
                members,
                members.len() as int,
            ),
            kind,
            held,
        ).contains(pair) <==> (if pair.0 == name {
            is_listed(kind, pair.1, members, members.len() as int)
        } else {
            held.contains(pair)
        }),
        members_after(seq![clear_members(kind, name)], kind, held).contains(pair) <==> (
        held.contains(pair) && pair.0 != name),
{
    let n = members.len() as int;
    lemma_group_texts(kind);
    lemma_added(kind, name, members, n, held, pair);
    lemma_removed(kind, name, members, n, held, pair);
    let clear = seq![clear_members(kind, name)];
    assert(clear.drop_last() =~= Seq::<Command>::empty());
    reveal_with_fuel(members_after, 2);
    let cleared = members_after(clear, kind, held);
    assert(cleared == members_after_one(clear_members(kind, name), kind, held));
    assert(cleared.contains(pair) <==> held.contains(pair) && pair.0 != name);
    lemma_members_behind(clear, insert_members(kind, name, members, n), kind, held);
    lemma_added(kind, name, members, n, cleared, pair);
}

/// The members of a group are listed from the table that adding them writes to,
/// and a group is looked for, created and removed in one table of its kind.
pub proof fn law_a_group_is_read_where_it_is_written(
    kind: GroupKind,
    name: Seq<char>,
    member: Seq<char>,
)
    ensures
        list_members(kind, name).sql == "SELECT "@ + name_column(kind) + " FROM "@ + home_of(kind)
            + " WHERE group_name = ?1 ORDER BY 1"@,
        insert_member(kind, name, member).sql == "INSERT OR IGNORE INTO "@ + home_of(kind)
            + " (group_name, "@ + name_column(kind) + ") VALUES (?1, ?2)"@,
        list_members(kind, name).params == seq![Cell::Text(name)],
        insert_member(kind, name, member).params[0] == Cell::Text(name),
        find_group(kind, name).sql == "SELECT name FROM "@ + group_table(kind)
            + " WHERE name = ?1"@,
        remove_group(kind, name).sql == "DELETE FROM "@ + group_table(kind) + " WHERE name = ?1"@,
        group_table(kind) == (match kind {
            GroupKind::User => "user_group"@,
            GroupKind::Repo => "repo_group"@,
        }),
        find_group(kind, name).params == remove_group(kind, name).params,
        find_group(kind, name).params == seq![Cell::Text(name)],
{
}

/// A name refers to a group that was found, to the user group where there are two,
/// and to none only where there is none.
pub proof fn law_a_name_refers_to_a_group_that_is_there(user_exists: bool, repo_exists: bool)
    ensures
        kind_found(user_exists, repo_exists) is None <==> !user_exists && !repo_exists,
        kind_found(user_exists, repo_exists) == Some(GroupKind::User) <==> user_exists,
        kind_found(user_exists, repo_exists) == Some(GroupKind::Repo) ==> repo_exists,
{
}

} // verus!
