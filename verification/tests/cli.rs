use githubdw::calendar::Date;
use githubdw::cli::{
    added_line, change_line, config_get, config_set, config_value, default_database_path,
    failure_lines, group_line,
    group_report, grouped_lines, hit_lines, query_command, removal_line, repo_report,
    repository_report, search_command, setting_line, source_lines, source_report, table_lines,
    user_report, version_text, watch_lines, GroupChange, JobRow, LockRow, OutputFormat, QueryArguments,
    QueryCommand,
};
use githubdw::error::Error;
use githubdw::metrics::types::{
    EntityMetric, GroupMetrics, MetricWithDelta, RepoAggregations, RepoMetrics, UserAggregations,
    UserMetrics,
};
use githubdw::query::{Lookups, PullRequestSummary};
use githubdw::search::{hit_of, HitKind, HitRow, SearchScope};
use githubdw::storage::monitor_repository::MonitoredSource;
use githubdw::sync::SyncSummary;

fn date(year: i32, month: u32, day: u32) -> Date {
    Date::from_ymd_opt(year, month, day).unwrap()
}

fn text(value: &str) -> Option<String> {
    Some(value.to_string())
}

fn arguments() -> QueryArguments {
    QueryArguments {
        author: None,
        reviewer: None,
        repo: None,
        org: None,
        group: None,
        label: None,
        state: None,
        merged: false,
        period: None,
        since: None,
        until: None,
        limit: None,
        offset: None,
        output: "table".to_string(),
    }
}

fn read(arguments: &QueryArguments) -> QueryCommand {
    let lookups = Lookups { author_keys: vec![], reviewer_keys: vec![], group: None };
    query_command(arguments, &lookups, date(2026, 7, 24))
}

fn refused(arguments: &QueryArguments) -> String {
    match read(arguments) {
        QueryCommand::Refused(error) => error.message(),
        other => panic!("not refused: {other:?}"),
    }
}

#[test]
fn every_output_format_is_known() {
    for (word, format) in [
        ("count", OutputFormat::Count),
        ("count-by-author", OutputFormat::CountByAuthor),
        ("count-by-repo", OutputFormat::CountByRepo),
        ("count-by-state", OutputFormat::CountByState),
        ("count-by-period", OutputFormat::CountByPeriod),
        ("json", OutputFormat::Json),
        ("csv", OutputFormat::Csv),
        ("table", OutputFormat::Table),
    ] {
        let arguments = QueryArguments { output: word.to_string(), ..arguments() };
        assert!(matches!(read(&arguments), QueryCommand::Run(_, chosen) if chosen == format));
    }
    let unknown = QueryArguments { output: "xml".to_string(), ..arguments() };
    assert_eq!(refused(&unknown), "invalid argument: unknown output format 'xml'");
}

#[test]
fn arguments_become_filters() {
    let arguments = QueryArguments {
        author: text("Alice"),
        repo: text("Octo/Alpha"),
        org: text("Octo"),
        label: text("Bug"),
        state: text("Open"),
        merged: true,
        period: text("2026-Q1"),
        since: text("2026-01-05"),
        until: text("2026-02-05"),
        limit: Some(10),
        offset: Some(5),
        ..arguments()
    };
    match read(&arguments) {
        QueryCommand::Run(query, OutputFormat::Table) => {
            assert_eq!(query.authors, vec!["user:alice"]);
            assert_eq!(query.repos, vec!["octo/alpha"]);
            assert_eq!(query.orgs, vec!["octo"]);
            assert_eq!(query.labels, vec!["Bug"]);
            assert_eq!(query.states, vec!["MERGED", "OPEN"]);
            assert_eq!(query.period.as_deref(), Some("2026-Q1"));
            assert_eq!(query.since, Some(date(2026, 1, 5)));
            assert_eq!(query.until, Some(date(2026, 2, 5)));
            assert_eq!((query.limit, query.offset), (Some(10), Some(5)));
        }
        other => panic!("{other:?}"),
    }
}

#[test]
fn the_first_unreadable_argument_refuses_a_query() {
    let state = QueryArguments { state: text("Odd"), period: text("never"), ..arguments() };
    assert_eq!(refused(&state), "invalid argument: unknown state 'odd'");
    let period = QueryArguments { period: text("never"), since: text("soon"), ..arguments() };
    assert!(refused(&period).contains("never"));
    let since = QueryArguments { since: text("soon"), until: text("later"), ..arguments() };
    assert!(refused(&since).starts_with("invalid argument: bad date 'soon'"));
    let until = QueryArguments { until: text("later"), ..arguments() };
    assert!(refused(&until).contains("bad date 'later'"));
    let endless = QueryArguments { period: text("last-4000000000"), ..arguments() };
    assert_eq!(read(&endless), QueryCommand::OutOfCalendar);
}

fn summary(number: i64, author_type: &str) -> PullRequestSummary {
    PullRequestSummary {
        pr_key: format!("octo/alpha#{number}"),
        number,
        repo_key: "octo/alpha".to_string(),
        author: "builder".to_string(),
        author_type: author_type.to_string(),
        author_key: format!("{author_type}:builder"),
        state: "OPEN".to_string(),
        title: if number == 2 { None } else { text("A change") },
        created_at: "2026-01-10T18:00:00Z".to_string(),
        merged_at: None,
        comment_count: 0,
        review_count: 0,
        additions: 1,
        deletions: 2,
    }
}

#[test]
fn tables_show_the_first_rows() {
    let rows = vec![summary(1, "user"), summary(2, "bot")];
    assert_eq!(
        table_lines(&rows),
        vec![
            "octo/alpha#1\tOPEN\tbuilder\t2026-01-10T18:00:00Z\tA change",
            "octo/alpha#2\tOPEN\tbuilder [bot]\t2026-01-10T18:00:00Z\t",
        ]
    );
    let many: Vec<PullRequestSummary> = (0..30).map(|n| summary(n, "user")).collect();
    let lines = table_lines(&many);
    assert_eq!(lines.len(), 26);
    assert_eq!(lines[25], "… and 5 more");
    assert_eq!(table_lines(&many[..25].iter().map(|_| summary(1, "user")).collect()).len(), 25);
}

#[test]
fn breakdowns_are_tab_separated() {
    let rows = vec![("alice".to_string(), 2), ("dependabot [bot]".to_string(), 1)];
    assert_eq!(grouped_lines(&rows), vec!["alice\t2", "dependabot [bot]\t1"]);
}

#[test]
fn settings_are_read_and_written() {
    assert_eq!(config_get("timezone").params.len(), 1);
    assert_eq!(config_set("timezone", "UTC").params.len(), 2);
    assert_eq!(setting_line("timezone", "UTC"), "timezone = UTC");
    assert_eq!(config_value("timezone", text("UTC")), Ok("UTC".to_string()));
    assert_eq!(
        config_value("color", None),
        Err(Error::NotFound("config key 'color'".to_string()))
    );
}

#[test]
fn sync_reports_name_what_happened() {
    let mut run = SyncSummary::default();
    run.up_to_date = true;
    assert_eq!(repository_report("octo/alpha", &run), "octo/alpha: already up to date");
    run.issues_synced = 2;
    run.pages_fetched = 1;
    run.failed.push(("octo/alpha#7".to_string(), "bad timestamp".to_string()));
    assert_eq!(
        repository_report("octo/alpha", &run),
        "octo/alpha: synced 0 pull requests, 2 issues (1 pages, 1 failed)"
    );
    assert_eq!(failure_lines(&run), vec!["failed octo/alpha#7: bad timestamp"]);
    assert_eq!(source_report("octo/alpha", &run), "octo/alpha: 0 PRs, 2 issues");
}

#[test]
fn a_watch_shows_running_syncs_or_recent_jobs() {
    let lock = LockRow {
        entity: "repo:octo/alpha".to_string(),
        started: "noon".to_string(),
        current: 4,
        current_id: None,
        synced: 3,
        skipped: 0,
        failed: 1,
    };
    let job = JobRow {
        entity: "repo:octo/beta".to_string(),
        status: "completed".to_string(),
        started: "dawn".to_string(),
        completed: text("dusk"),
        synced: 9,
    };
    assert_eq!(
        watch_lines(&vec![lock], &vec![job.clone()]),
        vec!["repo:octo/alpha: item 4 (-) since noon — 3 synced, 0 skipped, 1 failed"]
    );
    assert_eq!(
        watch_lines(&vec![], &vec![job]),
        vec![
            "no sync in progress",
            "repo:octo/beta: completed (started dawn, finished dusk, 9 synced)",
        ]
    );
}

#[test]
fn monitored_sources_are_listed() {
    assert_eq!(source_lines(&vec![]), vec!["nothing monitored yet"]);
    let source = MonitoredSource {
        source_type: "repo".to_string(),
        identifier: "octo/alpha".to_string(),
        last_sync_at: None,
        sync_enabled: false,
    };
    assert_eq!(
        source_lines(&vec![source]),
        vec!["repo\tocto/alpha\tdisabled\tlast sync: never"]
    );
    assert_eq!(added_line("repo", "Octo/Alpha"), "monitoring repo octo/alpha");
    assert_eq!(removal_line(1, "octo/alpha"), Ok("removed octo/alpha".to_string()));
    assert_eq!(
        removal_line(0, "octo/alpha"),
        Err(Error::NotFound("monitored source 'octo/alpha'".to_string()))
    );
}

fn ranked(name: &str, rank: u32) -> EntityMetric {
    EntityMetric {
        entity_key: format!("user:{name}"),
        entity_name: text(name),
        current: 3,
        previous: 1,
        delta: 2,
        rank_current: rank,
        rank_previous: None,
    }
}

#[test]
fn user_reports_hold_measures_and_leaderboards() {
    let measure = MetricWithDelta::new(4, 2);
    let metrics = UserMetrics {
        login: "builder".to_string(),
        entity_type: "bot".to_string(),
        entity_key: "bot:builder".to_string(),
        period_key: "2026-Q2".to_string(),
        previous_period_key: "2026-Q1".to_string(),
        current_date_range: ("a".to_string(), "b".to_string()),
        previous_date_range: ("c".to_string(), "d".to_string()),
        prs_opened: measure,
        prs_merged: measure,
        reviews_given: measure,
        reviews_received: measure,
        comments_given: measure,
        lines_added: MetricWithDelta::new(1, 1),
        lines_removed: MetricWithDelta::new(5, 0),
    };
    let aggregations = UserAggregations {
        top_repos: vec![],
        top_reviewers: vec![ranked("alice", 1), ranked("bob", 2)],
        top_reviewed_authors: vec![],
    };
    let mut percents = vec![text("+100"); 5];
    percents.push(text("+0"));
    percents.push(None);
    let lines = user_report(&metrics, &aggregations, &percents);
    assert_eq!(lines[0], "User builder [bot] — 2026-Q2 (vs 2026-Q1)");
    assert_eq!(lines[1], "  PRs opened:       4 (+2, +100%)");
    assert_eq!(lines[6], "  Lines added:      1 (no change)");
    assert_eq!(lines[7], "  Lines removed:    5 (+5)");
    assert_eq!(lines.len(), 11, "empty leaderboards are left out");
    assert_eq!(lines[9], "    #1 alice — 3 (+2) [new]");
}

#[test]
fn repo_reports_name_the_failure_rate() {
    let measure = MetricWithDelta::new(4, 2);
    let metrics = RepoMetrics {
        repository: "octo/alpha".to_string(),
        period_key: "2026-Q2".to_string(),
        previous_period_key: "2026-Q1".to_string(),
        current_date_range: ("a".to_string(), "b".to_string()),
        previous_date_range: ("c".to_string(), "d".to_string()),
        prs_opened: measure,
        prs_merged: measure,
        total_reviews: measure,
        total_comments: measure,
        check_failures: Some((1, 4)),
    };
    let aggregations = RepoAggregations {
        top_contributors: vec![ranked("alice", 1)],
        top_mergers: vec![],
        top_reviewers: vec![],
        top_commenters: vec![],
    };
    let percents = vec![text("+100"); 4];
    let lines = repo_report(&metrics, &aggregations, &percents, Some("25.0"));
    assert_eq!(lines[0], "Repo octo/alpha — 2026-Q2 (vs 2026-Q1)");
    assert_eq!(lines[5], "  Check failure rate: 25.0%");
    assert_eq!(lines[6], "  Top contributors:");
    assert_eq!(lines.len(), 8);
    assert_eq!(repo_report(&metrics, &aggregations, &percents, None).len(), 7);
}

#[test]
fn group_reports_hold_the_measures_of_their_kind() {
    let measure = MetricWithDelta::new(4, 2);
    let metrics = GroupMetrics {
        group_name: "core".to_string(),
        kind: "user".to_string(),
        member_count: 3,
        period_key: "2026-Q2".to_string(),
        previous_period_key: "2026-Q1".to_string(),
        prs_opened: measure,
        prs_merged: measure,
        reviews_given: Some(measure),
        total_reviews: None,
        total_comments: None,
    };
    let lines = group_report(&metrics, &vec![text("+100"); 5]);
    assert_eq!(lines[0], "Group core (user group, 3 members) — 2026-Q2 (vs 2026-Q1)");
    assert_eq!(lines[3], "  Reviews given (to non-members): 4 (+2, +100%)");
    assert_eq!(lines.len(), 4);
}

#[test]
fn group_changes_are_told() {
    assert_eq!(change_line(GroupChange::Created, "core"), "created group core");
    assert_eq!(change_line(GroupChange::Deleted, "core"), "deleted group core");
    assert_eq!(change_line(GroupChange::Added(2), "core"), "added 2 member(s) to core");
    assert_eq!(change_line(GroupChange::Removed(1), "core"), "removed 1 member(s) from core");
    assert_eq!(change_line(GroupChange::Replaced(0), "core"), "set core to 0 member(s)");
    assert_eq!(group_line("core", &None, 3), "core\t3 members\t");
}

#[test]
fn a_search_picks_at_most_one_corpus() {
    let options = search_command(false, true, false, &text("Octo/Alpha"), 5).unwrap();
    assert_eq!(options.scope, SearchScope::Issues);
    assert_eq!(options.repository.as_deref(), Some("octo/alpha"));
    assert_eq!(options.limit, 5);
    assert_eq!(search_command(false, false, false, &None, 5).unwrap().scope, SearchScope::All);
    assert_eq!(
        search_command(true, false, true, &None, 5),
        Err(Error::InvalidArgument(
            "pick at most one of --pull-requests / --issues / --comments".to_string()
        ))
    );
}

#[test]
fn hits_take_one_line_each() {
    assert_eq!(hit_lines(&vec![]), vec!["no matches"]);
    let hit = hit_of(
        HitKind::IssueComment,
        HitRow {
            key: "ISS1".to_string(),
            repository: None,
            title: None,
            author_key: None,
            state: None,
            snippet: "a [hit]\nhere".to_string(),
            rank: -1,
        },
    );
    assert_eq!(hit_lines(&vec![hit]), vec!["ISS1\tissue_comment\t-\ta [hit] here"]);
}

#[test]
fn the_version_names_its_commit() {
    assert_eq!(version_text("0.2.3", Some("03574c8")), "0.2.3 (03574c8)");
    assert_eq!(version_text("0.2.3", None), "0.2.3 (unknown)");
}

#[test]
fn the_database_lives_under_the_home_directory() {
    assert_eq!(
        default_database_path(Some("/home/alice")).unwrap(),
        "/home/alice/.githubdw/githubdw.db"
    );
    assert_eq!(default_database_path(Some("/")).unwrap(), "/.githubdw/githubdw.db");
    assert!(matches!(default_database_path(None), Err(Error::Config(_))));
}
