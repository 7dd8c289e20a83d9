use githubdw::error::Error;
use githubdw::groups::{
    add_members, create_group, delete_group, deletion_outcome, group_exists, kind_of, list_groups,
    members, remove_members, set_members, tables, GroupKind,
};
use githubdw::sql::{Batch, SqlValue, Statement};
use githubdw::storage::schema;
use rusqlite::types::Value;
use rusqlite::{Connection, OptionalExtension};
use rusqlite_migration::{Migrations, M};

fn open() -> Connection {
    let mut conn = Connection::open_in_memory().expect("open in-memory db");
    let steps: Vec<M<'static>> = schema::migrations().into_iter().map(M::up).collect();
    conn.pragma_update(None, "foreign_keys", "OFF").expect("foreign keys off");
    Migrations::new(steps).to_latest(&mut conn).expect("migrate");
    conn.pragma_update(None, "foreign_keys", "ON").expect("foreign keys on");
    conn
}

fn bound(statement: &Statement) -> Vec<Value> {
    statement
        .params
        .iter()
        .map(|value| match value {
            SqlValue::Null => Value::Null,
            SqlValue::Integer(n) => Value::Integer(*n),
            SqlValue::Text(text) => Value::Text(text.clone()),
        })
        .collect()
}

fn execute(conn: &Connection, statement: &Statement) -> rusqlite::Result<usize> {
    conn.execute(&statement.sql, rusqlite::params_from_iter(bound(statement)))
}

fn found(conn: &Connection, kind: GroupKind, name: &str) -> bool {
    let statement = group_exists(kind, name);
    conn.query_row(
        &statement.sql,
        rusqlite::params_from_iter(bound(&statement)),
        |row| row.get::<_, String>(0),
    )
    .optional()
    .unwrap()
    .is_some()
}

fn run(conn: &Connection, batch: Batch) -> Result<(), Error> {
    for statement in &batch.statements {
        execute(conn, statement).unwrap();
    }
    match batch.failure {
        Some(error) => Err(error),
        None => Ok(()),
    }
}

fn create(conn: &Connection, kind: GroupKind, name: &str, description: Option<&str>) {
    execute(conn, &create_group(kind, name, description)).unwrap();
}

fn add(conn: &Connection, kind: GroupKind, name: &str, list: &[&str]) -> Result<(), Error> {
    run(conn, add_members(kind, name, &owned(list), found(conn, kind, name)))
}

fn set(conn: &Connection, kind: GroupKind, name: &str, list: &[&str]) -> Result<(), Error> {
    run(conn, set_members(kind, name, &owned(list), found(conn, kind, name)))
}

fn remove(conn: &Connection, kind: GroupKind, name: &str, list: &[&str]) {
    for statement in remove_members(kind, name, &owned(list)) {
        execute(conn, &statement).unwrap();
    }
}

fn listed(conn: &Connection, kind: GroupKind, name: &str) -> Result<Vec<String>, Error> {
    let statement = members(kind, name, found(conn, kind, name))?;
    let mut prepared = conn.prepare(&statement.sql).unwrap();
    let rows = prepared
        .query_map(rusqlite::params_from_iter(bound(&statement)), |row| row.get(0))
        .unwrap();
    Ok(rows.map(|row| row.unwrap()).collect())
}

fn groups_of(conn: &Connection, kind: GroupKind) -> Vec<(String, Option<String>, i64)> {
    let statement = list_groups(kind);
    let mut prepared = conn.prepare(&statement.sql).unwrap();
    let rows = prepared
        .query_map([], |row| Ok((row.get(0)?, row.get(1)?, row.get(2)?)))
        .unwrap();
    rows.map(|row| row.unwrap()).collect()
}

fn kind_named(conn: &Connection, name: &str) -> Result<GroupKind, Error> {
    kind_of(
        found(conn, GroupKind::User, name),
        found(conn, GroupKind::Repo, name),
        name,
    )
}

fn delete(conn: &Connection, kind: GroupKind, name: &str) -> Result<(), Error> {
    let mut removed: usize = 0;
    for statement in delete_group(kind, name) {
        removed = execute(conn, &statement).unwrap();
    }
    deletion_outcome(removed, name)
}

fn owned(list: &[&str]) -> Vec<String> {
    list.iter().map(|member| member.to_string()).collect()
}

#[test]
fn group_crud_round_trip() {
    let conn = open();

    create(&conn, GroupKind::User, "core", Some("core team"));
    add(&conn, GroupKind::User, "core", &["Alice", "bob"]).unwrap();
    assert_eq!(listed(&conn, GroupKind::User, "core").unwrap(), vec!["alice", "bob"]);

    remove(&conn, GroupKind::User, "core", &["alice"]);
    assert_eq!(listed(&conn, GroupKind::User, "core").unwrap(), vec!["bob"]);

    set(&conn, GroupKind::User, "core", &["carol"]).unwrap();
    assert_eq!(listed(&conn, GroupKind::User, "core").unwrap(), vec!["carol"]);

    create(&conn, GroupKind::Repo, "backend", None);
    add(&conn, GroupKind::Repo, "backend", &["octo/alpha"]).unwrap();
    assert_eq!(kind_named(&conn, "core").unwrap(), GroupKind::User);
    assert_eq!(kind_named(&conn, "backend").unwrap(), GroupKind::Repo);
    assert!(kind_named(&conn, "missing").is_err());

    let all = groups_of(&conn, GroupKind::User);
    assert_eq!(all.len(), 1);
    assert_eq!(all[0].2, 1);

    delete(&conn, GroupKind::User, "core").unwrap();
    assert!(listed(&conn, GroupKind::User, "core").is_err());
    assert!(add(&conn, GroupKind::User, "core", &["x"]).is_err());
}

#[test]
fn missing_groups_are_named() {
    let conn = open();
    let missing = Err(Error::NotFound("group 'ghosts'".to_string()));
    assert_eq!(delete(&conn, GroupKind::User, "ghosts"), missing);
    assert_eq!(set(&conn, GroupKind::Repo, "ghosts", &["a/b"]), missing);
    assert_eq!(kind_named(&conn, "ghosts").map(|_| ()), missing);
}

#[test]
fn members_are_added_and_removed_in_any_spelling() {
    let conn = open();
    create(&conn, GroupKind::User, "core", None);
    add(&conn, GroupKind::User, "core", &["user:Alice", "ALICE"]).unwrap();
    assert_eq!(listed(&conn, GroupKind::User, "core").unwrap(), vec!["alice"]);
    remove(&conn, GroupKind::User, "core", &["User:alice"]);
    assert!(listed(&conn, GroupKind::User, "core").unwrap().is_empty());
}

#[test]
fn a_description_is_kept_until_it_is_replaced() {
    let conn = open();
    create(&conn, GroupKind::Repo, "backend", Some("services"));
    create(&conn, GroupKind::Repo, "backend", None);
    assert_eq!(groups_of(&conn, GroupKind::Repo)[0].1.as_deref(), Some("services"));
    create(&conn, GroupKind::Repo, "backend", Some("all services"));
    assert_eq!(groups_of(&conn, GroupKind::Repo)[0].1.as_deref(), Some("all services"));
}

#[test]
fn each_kind_has_its_tables() {
    assert_eq!(tables(GroupKind::User), ("user_group", "user_group_member", "login"));
    assert_eq!(tables(GroupKind::Repo), ("repo_group", "repo_group_member", "repo"));
}
