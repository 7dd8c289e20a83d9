use githubdw::calendar::{Date, MIN_YEAR};
use githubdw::groups::{group_exists, kind_of, members, GroupKind};
use githubdw::mcp::params::{MetricsParams, MonitorParams, QueryParams, SearchParams, SyncParams};
use githubdw::mcp::{
    get_metrics, list_sources, manage_monitors, query_pull_requests, removal_outcome, search,
    trigger_sync, MetricsCall, MetricsSubject, MonitorCall, QueryCall, QueryOutput,
};
use githubdw::period::Period;
use githubdw::query::Lookups;
use githubdw::search::{kinds, merge_hits, search_statement, SearchScope};
use githubdw::sql::{SqlValue, Statement};
use githubdw::storage::monitor_repository::{source_of, MonitoredSource, LIST_SQL};
use githubdw::storage::schema;
use rusqlite::types::Value;
use rusqlite::Connection;
use rusqlite_migration::{Migrations, M};

fn open() -> Connection {
    let mut conn = Connection::open_in_memory().expect("open in-memory db");
    let steps: Vec<M<'static>> = schema::migrations().into_iter().map(M::up).collect();
    conn.pragma_update(None, "foreign_keys", "OFF").expect("foreign keys off");
    Migrations::new(steps).to_latest(&mut conn).expect("migrate");
    conn.pragma_update(None, "foreign_keys", "ON").expect("foreign keys on");
    conn
}

fn bound(statement: &Statement) -> Vec<Value> {
    statement
        .params
        .iter()
        .map(|value| match value {
            SqlValue::Null => Value::Null,
            SqlValue::Integer(n) => Value::Integer(*n),
            SqlValue::Text(text) => Value::Text(text.clone()),
        })
        .collect()
}

fn execute(conn: &Connection, statement: &Statement) -> rusqlite::Result<usize> {
    conn.execute(&statement.sql, rusqlite::params_from_iter(bound(statement)))
}

fn date(year: i32, month: u32, day: u32) -> Date {
    Date::from_ymd_opt(year, month, day).unwrap()
}

fn nothing_known() -> Lookups {
    Lookups { author_keys: vec![], reviewer_keys: vec![], group: None }
}

fn call(params: &QueryParams) -> QueryCall {
    query_pull_requests(params, &nothing_known(), date(2026, 7, 24))
}

/// The answer of a count call on an empty warehouse.
fn count(params: &QueryParams) -> Result<i64, String> {
    match call(params) {
        QueryCall::Run(query, QueryOutput::Count) => {
            let statement = query.count();
            Ok(open()
                .query_row(
                    &statement.sql,
                    rusqlite::params_from_iter(bound(&statement)),
                    |row| row.get(0),
                )
                .unwrap())
        }
        QueryCall::Run(_, _) => Err("not a count".to_string()),
        QueryCall::OutOfCalendar => Err("out of calendar".to_string()),
        QueryCall::Refused(message) => Err(message),
    }
}

fn rows(statement: &Statement) -> usize {
    let conn = open();
    let mut prepared = conn.prepare(&statement.sql).unwrap();
    let mut rows = prepared
        .query(rusqlite::params_from_iter(bound(statement)))
        .unwrap();
    let mut n = 0;
    while rows.next().unwrap().is_some() {
        n += 1;
    }
    n
}

fn text(value: &str) -> Option<String> {
    Some(value.to_string())
}

fn counting() -> QueryParams {
    QueryParams { output: text("count"), ..QueryParams::default() }
}

fn refusal(call: QueryCall) -> String {
    match call {
        QueryCall::Refused(message) => message,
        other => panic!("not refused: {other:?}"),
    }
}

#[test]
fn query_counts_zero_on_an_empty_warehouse() {
    assert_eq!(count(&counting()), Ok(0));
}

#[test]
fn query_returns_an_empty_list_with_meta() {
    match call(&QueryParams::default()) {
        QueryCall::Run(query, QueryOutput::PullRequests) => {
            assert_eq!(query.limit, Some(50));
            assert_eq!(query.offset, None);
            assert_eq!(rows(&query.pull_requests()), 0);
        }
        other => panic!("{other:?}"),
    }
}

#[test]
fn query_supports_every_breakdown_output() {
    for (output, wanted) in [
        ("count_by_author", QueryOutput::CountByAuthor),
        ("count_by_repo", QueryOutput::CountByRepo),
        ("count_by_state", QueryOutput::CountByState),
        ("count_by_period", QueryOutput::CountByPeriod),
    ] {
        let params = QueryParams { output: text(output), ..QueryParams::default() };
        match call(&params) {
            QueryCall::Run(query, chosen) => {
                assert_eq!(chosen, wanted, "{output}");
                let statement = match chosen {
                    QueryOutput::CountByAuthor => query.count_by_author(),
                    QueryOutput::CountByRepo => query.count_by_repo(),
                    QueryOutput::CountByState => query.count_by_state(),
                    _ => query.count_by_period(),
                };
                assert_eq!(rows(&statement), 0);
            }
            other => panic!("{output} failed: {other:?}"),
        }
    }
}

#[test]
fn query_rejects_an_unknown_output() {
    let params = QueryParams { output: text("nonsense"), ..QueryParams::default() };
    let message = refusal(call(&params));
    assert!(message.contains("unknown output"), "{message}");
}

#[test]
fn query_rejects_an_unknown_state() {
    let params = QueryParams { state: text("nonsense"), ..QueryParams::default() };
    let message = refusal(call(&params));
    assert_eq!(message, "unknown state 'nonsense', use: open, merged, closed");
}

#[test]
fn query_accepts_the_documented_states() {
    for state in ["open", "merged", "closed", "MERGED"] {
        let params = QueryParams { state: text(state), ..counting() };
        assert_eq!(count(&params), Ok(0), "state {state} rejected");
    }
}

#[test]
fn query_rejects_an_unparseable_period() {
    let params = QueryParams { period: text("not-a-period"), ..QueryParams::default() };
    assert!(refusal(call(&params)).starts_with("invalid argument: "));
}

#[test]
fn query_accepts_calendar_and_rolling_periods() {
    for period in ["2026-Q1", "last-30"] {
        let params = QueryParams { period: text(period), ..counting() };
        assert_eq!(count(&params), Ok(0), "period {period} rejected");
    }
}

#[test]
fn query_rejects_an_unknown_group() {
    let conn = open();
    let found = |kind: GroupKind| {
        let statement = group_exists(kind, "no-such-group");
        conn.query_row(
            &statement.sql,
            rusqlite::params_from_iter(bound(&statement)),
            |_| Ok(true),
        )
        .unwrap_or(false)
    };
    assert!(kind_of(found(GroupKind::User), found(GroupKind::Repo), "no-such-group").is_err());
}

#[test]
fn rolling_periods_become_date_windows() {
    let params = QueryParams { period: text("last-30"), ..counting() };
    match call(&params) {
        QueryCall::Run(query, _) => {
            assert_eq!(query.since, Some(date(2026, 6, 25)));
            assert_eq!(query.until, Some(date(2026, 7, 24)));
            assert_eq!(query.period, None);
        }
        other => panic!("{other:?}"),
    }
    let endless = QueryParams { period: text("last-4000000000"), ..counting() };
    assert_eq!(call(&endless), QueryCall::OutOfCalendar);
}

#[test]
fn listings_are_paged() {
    let params = QueryParams { limit: Some(7), offset: Some(3), ..QueryParams::default() };
    match call(&params) {
        QueryCall::Run(query, QueryOutput::PullRequests) => {
            assert_eq!((query.limit, query.offset), (Some(7), Some(3)));
        }
        other => panic!("{other:?}"),
    }
}

fn metrics(entity_type: &str, period: &str) -> Result<(MetricsSubject, Period), String> {
    let params = MetricsParams {
        entity_type: entity_type.to_string(),
        name: "someone".to_string(),
        period: period.to_string(),
    };
    match get_metrics(&params, date(2026, 7, 24)) {
        MetricsCall::Run(subject, period) => Ok((subject, period)),
        MetricsCall::OutOfCalendar => Err("out of calendar".to_string()),
        MetricsCall::Refused(message) => Err(message),
    }
}

#[test]
fn metrics_returns_user_and_repo_shapes() {
    let period = Period::Quarter(2026, 1);
    assert_eq!(metrics("user", "2026-Q1"), Ok((MetricsSubject::User, period)));
    assert_eq!(metrics("repo", "2026-Q1"), Ok((MetricsSubject::Repo, period)));
    assert_eq!(metrics("user_group", "2026-Q1"), Ok((MetricsSubject::UserGroup, period)));
    assert_eq!(metrics("repo_group", "2026-Q1"), Ok((MetricsSubject::RepoGroup, period)));
}

#[test]
fn metrics_rejects_an_unknown_entity_type() {
    let message = metrics("planet", "2026-Q1").unwrap_err();
    assert!(message.contains("unknown entity_type"), "{message}");
}

#[test]
fn metrics_rejects_an_invalid_period() {
    assert!(metrics("user", "nope").is_err());
    assert!(
        metrics("planet", "nope").unwrap_err().starts_with("invalid argument: "),
        "the period is read first"
    );
}

#[test]
fn the_week_before_the_first_is_out_of_the_calendar() {
    let params = MetricsParams {
        entity_type: "planet".to_string(),
        name: "someone".to_string(),
        period: "Previous-Week".to_string(),
    };
    let first = date(MIN_YEAR, 1, 1);
    assert_eq!(get_metrics(&params, first), MetricsCall::OutOfCalendar);
    let params = MetricsParams { period: "this-week".to_string(), ..params };
    assert!(matches!(get_metrics(&params, first), MetricsCall::Refused(_)));
}

fn search_params(scope: Option<&str>) -> SearchParams {
    SearchParams {
        query: "abc".to_string(),
        scope: scope.map(str::to_string),
        repository: text("Octo/Alpha"),
        limit: None,
    }
}

#[test]
fn search_accepts_every_scope() {
    for (word, scope) in [
        ("all", SearchScope::All),
        ("pull_requests", SearchScope::PullRequests),
        ("issues", SearchScope::Issues),
        ("comments", SearchScope::Comments),
    ] {
        let options = search(&search_params(Some(word))).unwrap();
        assert_eq!(options.scope, scope);
        assert_eq!(options.repository.as_deref(), Some("octo/alpha"));
        assert_eq!(options.limit, 50);
    }
    assert_eq!(search(&search_params(None)).unwrap().scope, SearchScope::All);
}

#[test]
fn search_rejects_an_unknown_scope() {
    let message = search(&search_params(Some("everywhere"))).unwrap_err();
    assert!(message.contains("unknown scope"), "{message}");
}

fn monitor(action: Option<&str>, entity_type: Option<&str>, name: Option<&str>) -> MonitorCall {
    manage_monitors(&MonitorParams {
        action: action.map(str::to_string),
        entity_type: entity_type.map(str::to_string),
        name: name.map(str::to_string),
    })
}

fn sources(conn: &Connection) -> Vec<MonitoredSource> {
    let mut prepared = conn.prepare(LIST_SQL).unwrap();
    let rows = prepared
        .query_map([], |row| Ok(source_of(row.get(0)?, row.get(1)?, row.get(2)?, row.get(3)?)))
        .unwrap();
    rows.map(|row| row.unwrap()).collect()
}

fn perform(conn: &Connection, call: MonitorCall, name: &str) -> Result<(), String> {
    match call {
        MonitorCall::List => Ok(()),
        MonitorCall::Add(statement) => {
            execute(conn, &statement).unwrap();
            Ok(())
        }
        MonitorCall::Remove(statements) => {
            let removed = statements
                .iter()
                .map(|statement| execute(conn, statement).unwrap())
                .sum();
            removal_outcome(removed, name)
        }
        MonitorCall::Refused(message) => Err(message),
    }
}

#[test]
fn monitors_list_is_empty_by_default() {
    assert_eq!(monitor(None, None, None), MonitorCall::List);
    let lists = list_sources(&sources(&open()));
    assert!(lists.users.is_empty() && lists.repos.is_empty() && lists.orgs.is_empty());
}

#[test]
fn monitors_add_then_list_then_remove_round_trips() {
    let conn = open();
    let name = "adlio/githubdw";
    let add = monitor(Some("add"), Some("repo"), Some(name));
    assert!(perform(&conn, add, name).is_ok());
    assert_eq!(list_sources(&sources(&conn)).repos, vec![name]);

    let remove = monitor(Some("remove"), Some("repo"), Some(name));
    assert!(perform(&conn, remove, name).is_ok());
    assert!(list_sources(&sources(&conn)).repos.is_empty());
}

#[test]
fn monitors_add_requires_entity_type_and_name() {
    let conn = open();
    for call in [
        monitor(Some("add"), None, Some("x")),
        monitor(Some("add"), Some("user"), None),
    ] {
        assert!(perform(&conn, call, "x").unwrap_err().contains("is required"));
    }
}

#[test]
fn monitors_reject_unknown_entity_type_and_action() {
    let conn = open();
    let bad_type = monitor(Some("add"), Some("planet"), Some("x"));
    let message = perform(&conn, bad_type, "x").unwrap_err();
    assert!(message.contains("unknown entity_type"), "{message}");

    let bad_action = monitor(Some("explode"), None, None);
    let message = perform(&conn, bad_action, "x").unwrap_err();
    assert!(message.contains("unknown action"), "{message}");

    let bad_name = monitor(Some("add"), Some("repo"), Some("x"));
    let message = perform(&conn, bad_name, "x").unwrap_err();
    assert_eq!(message, "invalid argument: expected owner/name, got 'x'");
}

#[test]
fn monitors_removing_an_untracked_name_errors() {
    let conn = open();
    let remove = monitor(Some("remove"), Some("repo"), Some("no/such"));
    let message = perform(&conn, remove, "no/such").unwrap_err();
    assert!(message.contains("not monitored"), "{message}");
}

#[test]
fn sources_are_listed_by_type() {
    let conn = open();
    for (entity_type, name) in [("user", "Bot:A"), ("org", "ACME"), ("user", "b")] {
        let call = monitor(Some("add"), Some(entity_type), Some(name));
        perform(&conn, call, name).unwrap();
    }
    let lists = list_sources(&sources(&conn));
    assert_eq!(lists.users, vec!["a", "b"]);
    assert_eq!(lists.orgs, vec!["acme"]);
}

#[test]
fn sync_rejects_a_non_repo_entity_type() {
    let params = SyncParams { entity_type: "user".to_string(), name: "alice".to_string(), days: None };
    let message = trigger_sync(&params).unwrap_err();
    assert!(message.contains("only 'repo'"), "{message}");
}

#[test]
fn sync_covers_a_month_by_default() {
    let mut params =
        SyncParams { entity_type: "repo".to_string(), name: "a/b".to_string(), days: None };
    assert_eq!(trigger_sync(&params).unwrap().days, Some(30));
    params.days = Some(7);
    assert_eq!(trigger_sync(&params).unwrap().days, Some(7));
    assert!(!trigger_sync(&params).unwrap().skip_diffs);
}

#[test]
fn metrics_rejects_an_unknown_group() {
    for (entity, kind) in [("user_group", GroupKind::User), ("repo_group", GroupKind::Repo)] {
        assert!(metrics(entity, "2026-Q1").is_ok());
        let found = rows(&group_exists(kind, "ghost")) > 0;
        assert!(members(kind, "ghost", found).is_err(), "{entity} should reject a missing group");
    }
}

#[test]
fn search_returns_no_hits_on_an_empty_warehouse() {
    let params = SearchParams {
        query: "anything".to_string(),
        scope: None,
        repository: None,
        limit: None,
    };
    let options = search(&params).expect("ok");
    for kind in kinds(options.scope) {
        assert_eq!(rows(&search_statement(kind, &params.query, &options)), 0);
    }
    assert!(merge_hits(Vec::new(), options.effective_limit()).is_empty());
}
