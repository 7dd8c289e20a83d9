//! Monitored users/repos/orgs management.

use vstd::prelude::*;
use crate::error::{is_invalid, Error};
use crate::query::{bare_login, to_bare_login};
use crate::sql::{commands, push_statement, single, Cell, Command, Statement};
use crate::text::{contains_char, join3, lower, lowercase};

verus! {

/// A monitored source, uniformly described.
#[derive(Debug, Clone, PartialEq, Eq)]
pub struct MonitoredSource {
    /// `user`, `repo` or `org`.
    pub source_type: String,
    pub identifier: String,
    pub last_sync_at: Option<String>,
    pub sync_enabled: bool,
}

/// The command that runs a statement on one text.
pub open spec fn command_on(sql: Seq<char>, value: Seq<char>) -> Command {
    Command { sql, params: seq![Cell::Text(value)] }
}

/// The message that refuses a repository without an owner.
pub open spec fn expected_owner_and_name(repository: Seq<char>) -> Seq<char> {
    "expected owner/name, got '"@ + repository + "'"@
}

/// The statement that adds a monitored repository.
pub const ADD_REPO_SQL: &'static str = "INSERT OR IGNORE INTO monitored_repos (repo_key) VALUES (?1)";

/// Monitor a repository, given as `owner/name`.
pub fn add_repo(repository: &str) -> (outcome: Result<Statement, Error>)
    ensures
        if repository@.contains('/') {
            outcome is Ok && outcome->Ok_0@ == command_on(ADD_REPO_SQL@, lowercase(repository@))
        } else {
            outcome is Err && is_invalid(outcome->Err_0, expected_owner_and_name(repository@))
        },
{
    if !contains_char(repository, '/') {
        return Err(Error::InvalidArgument(join3("expected owner/name, got '", repository, "'")));
    }
    Ok(Statement::new(ADD_REPO_SQL).text(&lower(repository)))
}

/// The statement that adds a monitored user.
pub const ADD_USER_SQL: &'static str = "INSERT OR IGNORE INTO monitored_users (login) VALUES (?1)";

/// Monitor a user. `monitored_users.login` is declared bare, so a prefixed
/// spelling has to be reduced here: stored verbatim it would be a row no read
/// path can reach.
pub fn add_user(login: &str) -> (statement: Statement)
    ensures
        statement@ == command_on(ADD_USER_SQL@, bare_login(login@)),
{
    Statement::new(ADD_USER_SQL).text(&to_bare_login(login))
}

/// The statement that adds a monitored organization.
pub const ADD_ORG_SQL: &'static str = "INSERT OR IGNORE INTO monitored_orgs (org_login) VALUES (?1)";

/// Monitor an organization.
pub fn add_org(org: &str) -> (statement: Statement)
    ensures
        statement@ == command_on(ADD_ORG_SQL@, lowercase(org@)),
{
    Statement::new(ADD_ORG_SQL).text(&lower(org))
}

/// The statement that removes a monitored repository.
pub const REMOVE_REPO_SQL: &'static str = "DELETE FROM monitored_repos WHERE repo_key = ?1";

/// The statement that removes a monitored user.
pub const REMOVE_USER_SQL: &'static str = "DELETE FROM monitored_users WHERE login = ?1";

/// The statement that removes a monitored organization.
pub const REMOVE_ORG_SQL: &'static str = "DELETE FROM monitored_orgs WHERE org_login = ?1";

/// The commands that remove a source from whichever table matches. The login is
/// reduced as it is when a user is added, so a source added by either spelling
/// is removable by either spelling.
pub open spec fn remove_commands(identifier: Seq<char>) -> Seq<Command> {
    seq![
        command_on(REMOVE_REPO_SQL@, lowercase(identifier)),
        command_on(REMOVE_USER_SQL@, bare_login(lowercase(identifier))),
        command_on(REMOVE_ORG_SQL@, lowercase(identifier)),
    ]
}

/// Remove a source by identifier from whichever table matches. The number of
/// removed rows is the sum over the statements.
pub fn remove(identifier: &str) -> (statements: Vec<Statement>)
    ensures
        commands(statements@) == remove_commands(identifier@),
{
    let identifier = lower(identifier);
    let repo = Statement::new(REMOVE_REPO_SQL).text(&identifier);
    let user = Statement::new(REMOVE_USER_SQL).text(&to_bare_login(&identifier));
    let org = Statement::new(REMOVE_ORG_SQL).text(&identifier);
    assert(repo@ =~= command_on(REMOVE_REPO_SQL@, identifier@));
    assert(user@ =~= command_on(REMOVE_USER_SQL@, bare_login(identifier@)));
    assert(org@ =~= command_on(REMOVE_ORG_SQL@, identifier@));
    let mut statements = single(repo);
    push_statement(&mut statements, user);
    push_statement(&mut statements, org);
    statements
}

/// The statement that lists all monitored sources across the three tables.
pub const LIST_SQL: &'static str = "SELECT 'repo', repo_key, last_sync_at, sync_enabled FROM monitored_repos
         UNION ALL
         SELECT 'user', login, last_sync_at, sync_enabled FROM monitored_users
         UNION ALL
         SELECT 'org', org_login, last_sync_at, sync_enabled FROM monitored_orgs
         ORDER BY 1, 2";

/// The source that a row of the listing describes.
pub fn source_of(
    source_type: String,
    identifier: String,
    last_sync_at: Option<String>,
    sync_enabled: i64,
) -> (source: MonitoredSource)
    ensures
        source == (MonitoredSource {
            source_type,
            identifier,
            last_sync_at,
            sync_enabled: sync_enabled == 1,
        }),
{
    MonitoredSource { source_type, identifier, last_sync_at, sync_enabled: sync_enabled == 1 }
}

/// The statement that stamps a monitored repository.
pub const TOUCH_REPO_SQL: &'static str = "UPDATE monitored_repos SET last_sync_at = datetime('now') WHERE repo_key = ?1";

/// Stamp last_sync_at for a repo source.
pub fn touch_repo(repository: &str) -> (statement: Statement)
    ensures
        statement@ == command_on(TOUCH_REPO_SQL@, lowercase(repository@)),
{
    Statement::new(TOUCH_REPO_SQL).text(&lower(repository))
}

/// The statement that stamps a monitored user.
pub const TOUCH_USER_SQL: &'static str = "UPDATE monitored_users SET last_sync_at = datetime('now') WHERE login = ?1";

/// Stamp last_sync_at for a user source.
///
/// The login is reduced the same way `add_user` reduces it, so a row added by
/// either spelling is the row this stamps.
pub fn touch_user(login: &str) -> (statement: Statement)
    ensures
        statement@ == command_on(TOUCH_USER_SQL@, bare_login(login@)),
{
    Statement::new(TOUCH_USER_SQL).text(&to_bare_login(login))
}

// ---------------------------------------------------------------- laws

/// The command adds its text to a column of a table of monitored sources.
pub open spec fn adds_to(command: Command, table: Seq<char>, column: Seq<char>) -> bool {
    command.sql == "INSERT OR IGNORE INTO "@ + table + " ("@ + column + ") VALUES (?1)"@
}

/// The command removes its text from a column of a table of monitored sources.
pub open spec fn removes_from(command: Command, table: Seq<char>, column: Seq<char>) -> bool {
    command.sql == "DELETE FROM "@ + table + " WHERE "@ + column + " = ?1"@
}

/// The command stamps the row of a monitored source.
pub open spec fn stamps_in(command: Command, table: Seq<char>, column: Seq<char>) -> bool {
    command.sql == "UPDATE "@ + table + " SET last_sync_at = datetime('now') WHERE "@ + column
        + " = ?1"@
}

pub proof fn lemma_monitor_texts()
    ensures
        ADD_REPO_SQL@ == "INSERT OR IGNORE INTO "@ + "monitored_repos"@ + " ("@ + "repo_key"@
            + ") VALUES (?1)"@,
        ADD_USER_SQL@ == "INSERT OR IGNORE INTO "@ + "monitored_users"@ + " ("@ + "login"@
            + ") VALUES (?1)"@,
        ADD_ORG_SQL@ == "INSERT OR IGNORE INTO "@ + "monitored_orgs"@ + " ("@ + "org_login"@
            + ") VALUES (?1)"@,
        REMOVE_REPO_SQL@ == "DELETE FROM "@ + "monitored_repos"@ + " WHERE "@ + "repo_key"@
            + " = ?1"@,
        REMOVE_USER_SQL@ == "DELETE FROM "@ + "monitored_users"@ + " WHERE "@ + "login"@
            + " = ?1"@,
        REMOVE_ORG_SQL@ == "DELETE FROM "@ + "monitored_orgs"@ + " WHERE "@ + "org_login"@
            + " = ?1"@,
        TOUCH_REPO_SQL@ == "UPDATE "@ + "monitored_repos"@
            + " SET last_sync_at = datetime('now') WHERE "@ + "repo_key"@ + " = ?1"@,
        TOUCH_USER_SQL@ == "UPDATE "@ + "monitored_users"@
            + " SET last_sync_at = datetime('now') WHERE "@ + "login"@ + " = ?1"@,
{
    reveal_strlit("INSERT OR IGNORE INTO monitored_repos (repo_key) VALUES (?1)");
    reveal_strlit("INSERT OR IGNORE INTO monitored_users (login) VALUES (?1)");
    reveal_strlit("INSERT OR IGNORE INTO monitored_orgs (org_login) VALUES (?1)");
    reveal_strlit("DELETE FROM monitored_repos WHERE repo_key = ?1");
    reveal_strlit("DELETE FROM monitored_users WHERE login = ?1");
    reveal_strlit("DELETE FROM monitored_orgs WHERE org_login = ?1");
    reveal_strlit("UPDATE monitored_repos SET last_sync_at = datetime('now') WHERE repo_key = ?1");
    reveal_strlit("UPDATE monitored_users SET last_sync_at = datetime('now') WHERE login = ?1");
    reveal_strlit("INSERT OR IGNORE INTO ");
    reveal_strlit(" (");
    reveal_strlit(") VALUES (?1)");
    reveal_strlit("DELETE FROM ");
    reveal_strlit(" WHERE ");
    reveal_strlit(" = ?1");
    reveal_strlit("UPDATE ");
    reveal_strlit(" SET last_sync_at = datetime('now') WHERE ");
    reveal_strlit("monitored_repos");
    reveal_strlit("monitored_users");
    reveal_strlit("monitored_orgs");
    reveal_strlit("repo_key");
    reveal_strlit("login");
    reveal_strlit("org_login");
    assert(ADD_REPO_SQL@ =~= "INSERT OR IGNORE INTO "@ + "monitored_repos"@ + " ("@ + "repo_key"@
        + ") VALUES (?1)"@);
    assert(ADD_USER_SQL@ =~= "INSERT OR IGNORE INTO "@ + "monitored_users"@ + " ("@ + "login"@
        + ") VALUES (?1)"@);
    assert(ADD_ORG_SQL@ =~= "INSERT OR IGNORE INTO "@ + "monitored_orgs"@ + " ("@ + "org_login"@
        + ") VALUES (?1)"@);
    assert(REMOVE_REPO_SQL@ =~= "DELETE FROM "@ + "monitored_repos"@ + " WHERE "@ + "repo_key"@
        + " = ?1"@);
    assert(REMOVE_USER_SQL@ =~= "DELETE FROM "@ + "monitored_users"@ + " WHERE "@ + "login"@
        + " = ?1"@);
    assert(REMOVE_ORG_SQL@ =~= "DELETE FROM "@ + "monitored_orgs"@ + " WHERE "@ + "org_login"@
        + " = ?1"@);
    assert(TOUCH_REPO_SQL@ =~= "UPDATE "@ + "monitored_repos"@
        + " SET last_sync_at = datetime('now') WHERE "@ + "repo_key"@ + " = ?1"@);
    assert(TOUCH_USER_SQL@ =~= "UPDATE "@ + "monitored_users"@
        + " SET last_sync_at = datetime('now') WHERE "@ + "login"@ + " = ?1"@);
}

/// The commands remove a text from a column of a table.
pub open spec fn some_removes(
    commands: Seq<Command>,
    table: Seq<char>,
    column: Seq<char>,
    value: Seq<char>,
) -> bool {
    exists|k: int|
        0 <= k < commands.len() && removes_from(#[trigger] commands[k], table, column)
            && commands[k].params == seq![Cell::Text(value)]
}

/// A source is removed from the table that adding it wrote to, under the
/// identifier that it was added by: a repository or an owner in lower case, and a
/// user by the bare login. Each of the three tables is looked at, and a sync
/// stamps the row that was added.
pub proof fn law_a_source_is_removed_where_it_was_added(identifier: Seq<char>)
    ensures
        adds_to(command_on(ADD_REPO_SQL@, identifier), "monitored_repos"@, "repo_key"@),
        adds_to(command_on(ADD_USER_SQL@, identifier), "monitored_users"@, "login"@),
        adds_to(command_on(ADD_ORG_SQL@, identifier), "monitored_orgs"@, "org_login"@),
        some_removes(
            remove_commands(identifier),
            "monitored_repos"@,
            "repo_key"@,
            lowercase(identifier),
        ),
        some_removes(
            remove_commands(identifier),
            "monitored_users"@,
            "login"@,
            bare_login(lowercase(identifier)),
        ),
        some_removes(
            remove_commands(identifier),
            "monitored_orgs"@,
            "org_login"@,
            lowercase(identifier),
        ),
        remove_commands(identifier).len() == 3,
        stamps_in(command_on(TOUCH_REPO_SQL@, identifier), "monitored_repos"@, "repo_key"@),
        stamps_in(command_on(TOUCH_USER_SQL@, identifier), "monitored_users"@, "login"@),
{
    lemma_monitor_texts();
    let list = remove_commands(identifier);
    assert(removes_from(list[0], "monitored_repos"@, "repo_key"@));
    assert(removes_from(list[1], "monitored_users"@, "login"@));
    assert(removes_from(list[2], "monitored_orgs"@, "org_login"@));
}

} // verus!
