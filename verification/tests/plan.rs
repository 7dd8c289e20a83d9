use githubdw::storage::monitor_repository::MonitoredSource;
use githubdw::sync::plan_all;

fn source(source_type: &str, identifier: &str, sync_enabled: bool) -> MonitoredSource {
    MonitoredSource {
        source_type: source_type.to_string(),
        identifier: identifier.to_string(),
        last_sync_at: None,
        sync_enabled,
    }
}

#[test]
fn the_plan_covers_both_supported_source_types() {
    let plan = plan_all(&vec![
        source("repo", "acme/widgets", true),
        source("user", "octocat", true),
    ]);
    assert_eq!(plan.repos, vec!["acme/widgets"]);
    assert_eq!(plan.users, vec!["octocat"]);
    assert!(plan.notices.is_empty());
}

#[test]
fn no_enabled_source_is_dropped_without_a_word() {
    let sources = vec![
        source("repo", "acme/widgets", true),
        source("user", "octocat", true),
        source("org", "acme", true),
        source("repo", "acme/legacy", false),
    ];
    let plan = plan_all(&sources);
    let notices = plan.notices.join("\n");

    for entry in &sources {
        let accounted = plan.repos.contains(&entry.identifier)
            || plan.users.contains(&entry.identifier)
            || notices.contains(&entry.identifier);
        assert!(
            accounted,
            "{} ({}) is neither synced nor mentioned",
            entry.identifier, entry.source_type
        );
    }
    assert!(
        notices.contains("org") && notices.contains("not implemented"),
        "the unsupported type says so: {notices}"
    );
    assert!(
        notices.contains("disabled"),
        "a deliberately disabled source is still accounted for: {notices}"
    );
}

#[test]
fn an_empty_monitored_set_says_what_to_do() {
    let plan = plan_all(&vec![]);
    assert!(plan.is_empty());
    assert_eq!(plan.notices.len(), 1);
    assert!(plan.notices[0].contains("monitor add-user"));
}
