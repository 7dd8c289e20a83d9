use githubdw::calendar::Date;
use githubdw::clock::{Instant, Timezone};
use githubdw::error::Error;
use githubdw::json::{elements, integer, integer_field, string_field, string_or, Json};
use githubdw::query::to_bare_login;
use githubdw::summaries::tools::QueryDatabaseTool;
use githubdw::number::{parse_signed, parse_unsigned, signed_text, text_of};
use githubdw::sync::{
    coverage_window, first_page, has_coverage_window, month_windows, FirstPage, Walk, Watermark,
};
use githubdw::fetch::user_search::UserRole;
use githubdw::text::{
    contains, ends_with, first_word, join, less, placeholders, replace_char, rsplit_once,
    split_once, starts_with, strip_prefix, trim,
};

fn date(year: i32, month: u32, day: u32) -> Date {
    Date::from_ymd_opt(year, month, day).unwrap()
}

#[test]
fn numbers_read_back_as_they_were_written() {
    for n in [0, 7, 10, 12_345, u64::MAX] {
        assert_eq!(parse_unsigned(&text_of(n), u64::MAX), Some(n));
    }
    for n in [0, -1, 42, i64::MIN, i64::MAX] {
        assert_eq!(parse_signed(&signed_text(n), i64::MIN, i64::MAX), Some(n));
    }
    assert_eq!(text_of(1024), "1024");
    assert_eq!(signed_text(-305), "-305");
}

#[test]
fn numbers_out_of_range_are_not_read() {
    assert_eq!(parse_unsigned("256", 255), None);
    assert_eq!(parse_unsigned("+255", 255), Some(255));
    assert_eq!(parse_unsigned("", 255), None);
    assert_eq!(parse_unsigned("1a", 255), None);
    assert_eq!(parse_signed("9223372036854775808", i64::MIN, i64::MAX), None);
    assert_eq!(parse_signed("-", i64::MIN, i64::MAX), None);
}

#[test]
fn letters_change_case_beyond_ascii() {
    assert_eq!(to_bare_login("User:ÄBC-9"), "äbc-9");
    assert!(QueryDatabaseTool::is_read_only("Select 'ß'"));
}

#[test]
fn texts_are_cut_and_joined() {
    assert_eq!(split_once("a/b/c", '/'), Some(("a".to_string(), "b/c".to_string())));
    assert_eq!(rsplit_once("a/b/c", '/'), Some(("a/b".to_string(), "c".to_string())));
    assert_eq!(split_once("abc", '/'), None);
    assert_eq!(trim(" \t a b \n"), "a b");
    assert_eq!(first_word("  two words"), "two");
    assert_eq!(strip_prefix("user:x", "user:"), Some("x".to_string()));
    assert_eq!(replace_char("a\"b", '"', "\"\""), "a\"\"b");
    assert_eq!(join(&vec!["a".to_string(), "b".to_string()], ", "), "a, b");
    assert_eq!(placeholders(3), "?, ?, ?");
    assert!(contains("haystack", "st") && !contains("haystack", "needle"));
    assert!(starts_with("héllo", "hé") && ends_with("héllo", "llo"));
}

#[test]
fn texts_are_ordered_as_timestamps_are() {
    assert!(less("2026-01-09T10:00:00Z", "2026-01-10T10:00:00Z"));
    assert!(!less("2026-01-10T10:00:00Z", "2026-01-10T10:00:00Z"));
    assert!(less("", "a") && less("a", "ab") && !less("b", "ab"));
}

#[test]
fn dates_know_their_calendar() {
    let leap = date(2024, 2, 29);
    assert_eq!(leap.civil(), (2024, 2, 29));
    assert_eq!(leap.ordinal(), 60);
    assert_eq!(leap.iso_week(), (2024, 9));
    assert_eq!(leap.key(), "2024-02-29");
    assert_eq!(Date::parse("2024-02-29"), Ok(leap));
    assert!(Date::parse("2023-02-29").is_err());
    assert_eq!(Date::from_ymd_opt(2023, 2, 29), None);
    assert_eq!(leap.plus_days(366), date(2025, 3, 1));
    assert_eq!(date(2025, 3, 1).days_since(&leap), 366);
    assert_eq!(leap.checked_plus_days(1_000_000_000), None);
    assert!(leap.is_before(&date(2024, 3, 1)));
    assert_eq!(Date::from_isoywd_opt(2025, 1), Some(date(2024, 12, 30)));
    assert_eq!(Date::from_isoywd_opt(2025, 53), None);
}

#[test]
fn instants_are_read_with_their_offset() {
    let instant = Instant::parse("2026-08-16T12:00:00.5+02:00").unwrap();
    assert_eq!(instant.seconds(), 1_786_874_400);
    assert_eq!(instant.nanos(), 500_000_000);
    assert_eq!(instant.utc_date(), date(2026, 8, 16));
    assert!(Instant::parse("2026-08-16").is_err());
    assert!(instant.is_inside_calendar());
    assert!(Instant::new(i64::MAX, 0).is_none());
}

#[test]
fn zones_are_known_by_name() {
    let zone = Timezone::parse("Asia/Kathmandu").unwrap();
    assert_eq!(zone.name(), "Asia/Kathmandu");
    assert!(Timezone::parse("Nowhere/Land").is_none());
    assert_eq!(Timezone::fallback().name(), "America/Los_Angeles");
}

#[test]
fn errors_have_their_messages() {
    for (error, message) in [
        (Error::Database("x".to_string()), "database error: x"),
        (Error::Migration("x".to_string()), "migration error: x"),
        (Error::Io("x".to_string()), "I/O error: x"),
        (Error::Json("x".to_string()), "JSON error: x"),
        (
            Error::GhUnavailable("x".to_string()),
            "gh CLI is not available or not authenticated: x",
        ),
        (
            Error::GhCommand { exit_code: Some(1), stderr: "x".to_string() },
            "gh command failed (exit Some(1)): x",
        ),
        (
            Error::GhCommand { exit_code: None, stderr: "x".to_string() },
            "gh command failed (exit None): x",
        ),
        (Error::GitHubApi("x".to_string()), "GitHub API error: x"),
        (Error::Config("x".to_string()), "configuration error: x"),
        (Error::InvalidArgument("x".to_string()), "invalid argument: x"),
        (Error::NotFound("x".to_string()), "not found: x"),
        (Error::SyncInProgress("x".to_string()), "sync already in progress for x"),
        (Error::SchemaIntegrity("x".to_string()), "schema integrity error: x"),
        (Error::Llm("x".to_string()), "LLM error: x"),
    ] {
        assert_eq!(error.message(), message);
    }
}

#[test]
fn json_members_are_found_by_name() {
    let value = Json::Object(vec![
        ("n".to_string(), Json::Number(Some(7))),
        ("x".to_string(), Json::Number(None)),
        ("t".to_string(), Json::Text("hi".to_string())),
        ("l".to_string(), Json::Array(vec![Json::Null, Json::Bool(true)])),
    ]);
    assert_eq!(integer(&value, "n"), Some(7));
    assert_eq!(integer(&value, "x"), None);
    assert_eq!(integer_field(&value, "missing"), 0);
    assert_eq!(string_field(&value, "t").as_deref(), Some("hi"));
    assert_eq!(string_field(&value, "n"), None);
    assert_eq!(string_or(&value, "n", "other"), "other");
    assert_eq!(elements(&value, "l").unwrap().len(), 2);
    assert!(elements(&value, "t").is_none());
}

#[test]
fn windows_end_with_the_last_complete_day() {
    let today = date(2026, 8, 16);
    assert_eq!(coverage_window(Some(3), true, &today), (date(2026, 8, 13), date(2026, 8, 15)));
    assert_eq!(coverage_window(Some(0), true, &today), (date(2026, 8, 15), date(2026, 8, 15)));
    assert_eq!(coverage_window(None, true, &today), (date(2026, 8, 15), date(2026, 8, 15)));
    assert_eq!(coverage_window(None, false, &today), (date(2026, 5, 18), date(2026, 8, 15)));
    assert!(has_coverage_window(None, false, &today));
    assert!(!has_coverage_window(Some(u32::MAX), false, &today));
}

#[test]
fn watermarks_stay_at_the_oldest_failure() {
    let mut mark = Watermark::start(Some("2026-01-01"));
    assert_eq!(mark.cursor().as_deref(), Some("2026-01-01"));
    mark.landed(Some("2026-01-09"));
    mark.failed(Some("2026-01-07"));
    mark.landed(Some("2026-01-05"));
    assert_eq!(mark.cursor().as_deref(), Some("2026-01-07"));
    mark.failed(Some("2026-01-06"));
    assert_eq!(mark.cursor().as_deref(), Some("2026-01-06"));
    mark.landed(None);
    assert_eq!(mark.cursor().as_deref(), Some("2026-01-06"));
}

#[test]
fn walks_stop_behind_the_cursor() {
    let walk = Walk::start(Some("2026-01-10T10:00:00Z"), 25);
    assert!(!walk.is_past_stop(Some("2026-01-10T10:00:00Z")), "the boundary is read again");
    assert!(walk.is_past_stop(Some("2026-01-10T09:59:59Z")));
    assert!(!walk.is_past_stop(None));
    assert!(!Walk::start(None, 25).is_past_stop(Some("2000-01-01T00:00:00Z")));
}

#[test]
fn pages_shrink_down_to_one_item() {
    let mut walk = Walk::start(None, 25);
    let mut sizes = vec![walk.page_size];
    while walk.retry_smaller() {
        sizes.push(walk.page_size);
    }
    assert_eq!(sizes, vec![25, 12, 6, 3, 1]);
}

#[test]
fn pages_follow_their_cursors() {
    let mut walk = Walk::start(None, 25);
    walk.page_cursor = Some("C1".to_string());
    assert_eq!(
        walk.repository_variables("octo", "alpha"),
        vec![
            ("owner".to_string(), "octo".to_string()),
            ("name".to_string(), "alpha".to_string()),
            ("cursor".to_string(), "C1".to_string()),
        ]
    );
}

#[test]
fn halves_meet_in_the_middle() {
    let window = Some((date(2026, 8, 1), date(2026, 8, 31)));
    let decision = first_page("octocat", UserRole::Author, "q", window, false, 2500, 0);
    assert_eq!(
        decision,
        FirstPage::Split(
            (date(2026, 8, 1), date(2026, 8, 16)),
            (date(2026, 8, 17), date(2026, 8, 31))
        )
    );
    let deep = first_page("octocat", UserRole::Author, "q", window, false, 2500, 8);
    assert!(matches!(deep, FirstPage::Capped(_)));
    assert_eq!(
        first_page("octocat", UserRole::Author, "q", window, true, 2500, 0),
        FirstPage::Proceed
    );
    assert_eq!(
        first_page("octocat", UserRole::Author, "q", window, false, 1000, 0),
        FirstPage::Proceed
    );
}

#[test]
fn month_windows_cover_every_day_once() {
    let (start, end) = (date(2023, 11, 20), date(2024, 3, 2));
    let windows = month_windows(start, end);
    assert_eq!(windows.len(), 5);
    assert_eq!(windows[0].0, start);
    assert_eq!(windows[4].1, end);
    for pair in windows.windows(2) {
        assert_eq!(pair[1].0.days_since(&pair[0].1), 1);
    }
    for (first, last) in &windows {
        assert_eq!(first.civil().1, last.civil().1, "a window stays in its month");
    }
}
