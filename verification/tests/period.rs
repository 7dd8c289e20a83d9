use githubdw::calendar::{Date, MIN_YEAR};
use githubdw::clock::{Instant, Timezone};
use githubdw::error::Error;
use githubdw::period::Period;

fn date(year: i32, month: u32, day: u32) -> Date {
    Date::from_ymd_opt(year, month, day).unwrap()
}

fn at(text: &str) -> Instant {
    Instant::parse(text).unwrap()
}

fn los_angeles() -> Timezone {
    Timezone::parse("America/Los_Angeles").unwrap()
}

fn kiritimati() -> Timezone {
    Timezone::parse("Pacific/Kiritimati").unwrap()
}

fn parse(text: &str) -> Result<Period, Error> {
    Period::parse_with_reference(text, date(2026, 7, 24))
}

#[test]
fn parses_all_forms() {
    assert_eq!(parse("2026").unwrap(), Period::Year(2026));
    assert_eq!(parse("2026-H1").unwrap(), Period::Half(2026, 1));
    assert_eq!(parse("2026-Q3").unwrap(), Period::Quarter(2026, 3));
    assert_eq!(parse("2026-01").unwrap(), Period::Month(2026, 1));
    assert_eq!(parse("2026-M1").unwrap(), Period::Month(2026, 1));
    assert_eq!(parse("2026-W02").unwrap(), Period::Week(2026, 2));
    assert!(matches!(parse("last-30").unwrap(), Period::Rolling(30, _)));
    assert!(parse("garbage").is_err());
    assert!(parse("2026-Q5").is_err());
}

/// 2026-07-01T01:00:00Z is 2026-06-30 18:00 in Los Angeles.
#[test]
fn relative_periods_resolve_in_the_target_zone_not_utc() {
    let evening_pdt = at("2026-07-01T01:00:00Z");
    let zone = los_angeles();

    assert_eq!(
        Period::parse_as_of("this-quarter", &evening_pdt, &zone).unwrap(),
        Period::Quarter(2026, 2),
    );
    assert_eq!(
        Period::parse_as_of("previous-quarter", &evening_pdt, &zone).unwrap(),
        Period::Quarter(2026, 1),
    );
    assert_eq!(
        Period::parse_as_of("this-month", &evening_pdt, &zone).unwrap(),
        Period::Month(2026, 6),
    );

    // Rolling window: ends on the local day, not the UTC one.
    let rolling = Period::parse_as_of("last-30", &evening_pdt, &zone).unwrap();
    let (start, end) = rolling.date_range();
    assert_eq!(end, date(2026, 6, 30));
    assert_eq!(start, date(2026, 6, 1));

    let utc_answer =
        Period::parse_with_reference("this-quarter", evening_pdt.utc_date()).unwrap();
    assert_eq!(utc_answer, Period::Quarter(2026, 3), "the UTC calendar");
}

/// 2026-01-01T01:00:00Z is 2025-12-31 17:00 PST.
#[test]
fn relative_periods_are_dst_aware_at_a_year_boundary() {
    let evening_pst = at("2026-01-01T01:00:00Z");
    let zone = los_angeles();
    assert_eq!(
        Period::parse_as_of("this-year", &evening_pst, &zone).unwrap(),
        Period::Year(2025),
    );
    assert_eq!(
        Period::parse_as_of("this-quarter", &evening_pst, &zone).unwrap(),
        Period::Quarter(2025, 4),
    );
    assert_eq!(
        Period::parse_as_of("this-week", &evening_pst, &zone).unwrap(),
        Period::Week(2026, 1),
        "ISO week 2026-W01 contains 2025-12-31",
    );
}

/// 2026-06-30T12:00:00Z is 2026-07-01 in Kiritimati.
#[test]
fn relative_periods_resolve_forward_in_an_eastern_zone() {
    let instant = at("2026-06-30T12:00:00Z");
    assert_eq!(
        Period::parse_as_of("this-quarter", &instant, &kiritimati()).unwrap(),
        Period::Quarter(2026, 3),
    );
    assert_eq!(
        Period::parse_as_of("this-quarter", &instant, &los_angeles()).unwrap(),
        Period::Quarter(2026, 2),
    );
}

#[test]
fn relative_forms_resolve_against_reference() {
    let reference = date(2026, 7, 24);
    assert_eq!(
        Period::parse_with_reference("this-quarter", reference).unwrap(),
        Period::Quarter(2026, 3)
    );
    assert_eq!(
        Period::parse_with_reference("previous-quarter", reference).unwrap(),
        Period::Quarter(2026, 2)
    );
    assert_eq!(
        Period::parse_with_reference("previous-month", reference).unwrap(),
        Period::Month(2026, 6)
    );
}

#[test]
fn date_ranges_handle_leap_years_and_quarters() {
    let (start, end) = Period::Month(2024, 2).date_range();
    assert_eq!(start, date(2024, 2, 1));
    assert_eq!(end, date(2024, 2, 29));

    let (start, end) = Period::Quarter(2026, 4).date_range();
    assert_eq!(start, date(2026, 10, 1));
    assert_eq!(end, date(2026, 12, 31));

    let (start, end) = Period::Half(2026, 1).date_range();
    assert_eq!(start, date(2026, 1, 1));
    assert_eq!(end, date(2026, 6, 30));
}

#[test]
fn previous_crosses_boundaries() {
    assert_eq!(
        Period::Quarter(2026, 1).previous(),
        Period::Quarter(2025, 4)
    );
    assert_eq!(Period::Month(2026, 1).previous(), Period::Month(2025, 12));
    assert_eq!(Period::Half(2026, 1).previous(), Period::Half(2025, 2));
    let rolling = Period::Rolling(30, date(2026, 7, 24));
    let previous = rolling.previous();
    let (_, end) = previous.date_range();
    assert_eq!(end, date(2026, 6, 24));
}

#[test]
fn partial_period_machinery() {
    let quarter = Period::Quarter(2026, 3);
    let reference = date(2026, 7, 25); // day 25 of Q3
    assert!(quarter.is_partial(reference));
    assert_eq!(quarter.days_elapsed(reference), 25);
    assert_eq!(quarter.effective_end_date(reference), reference);
    assert_eq!(quarter.position_column(), Some("day_of_quarter"));

    let rolling = Period::Rolling(30, reference);
    assert!(!rolling.is_partial(reference));
    assert_eq!(rolling.position_column(), None);
}

#[test]
fn column_selection_by_key() {
    assert_eq!(Period::column_for_key("2026-Q1"), "quarter_key");
    assert_eq!(Period::column_for_key("2026-W02"), "week_key");
    assert_eq!(Period::column_for_key("2026-H1"), "half_key");
    assert_eq!(Period::column_for_key("2026-01"), "month_key");
    assert_eq!(Period::column_for_key("2026"), "year_key");
}

#[test]
fn keys_read_back_as_the_period_they_name() {
    for period in [
        Period::Year(2026),
        Period::Half(2026, 2),
        Period::Quarter(2026, 3),
        Period::Month(2026, 1),
        Period::Week(2026, 2),
        Period::Year(7),
        Period::Month(12345, 12),
    ] {
        let key = period.to_key();
        assert_eq!(parse(&key).unwrap(), period, "{key}");
    }
    assert_eq!(Period::Month(2026, 1).to_key(), "2026-01");
    assert_eq!(Period::Week(2026, 2).to_key(), "2026-W02");
}

#[test]
fn every_relative_form_has_its_period() {
    for (text, period) in [
        ("this-week", Period::Week(2026, 30)),
        ("this-month", Period::Month(2026, 7)),
        ("this-year", Period::Year(2026)),
        ("previous-week", Period::Week(2026, 29)),
        ("previous-year", Period::Year(2025)),
        ("  THIS-Quarter ", Period::Quarter(2026, 3)),
    ] {
        assert_eq!(parse(text).unwrap(), period, "{text}");
    }
}

#[test]
fn unreadable_periods_are_invalid_arguments() {
    for text in ["", "2026-Q0", "2026-H3", "2026-13", "2026-W", "last-", "last-x", "20-26-01"] {
        assert!(
            matches!(parse(text), Err(Error::InvalidArgument(_))),
            "{text} was read"
        );
    }
}

#[test]
fn the_week_before_the_first_is_the_last_of_the_year_before() {
    assert_eq!(Period::Week(2021, 1).previous(), Period::Week(2020, 53));
    assert_eq!(Period::Week(2026, 1).previous(), Period::Week(2025, 52));
    let (start, end) = Period::Week(2021, 1).date_range();
    assert_eq!(start, date(2021, 1, 4));
    assert_eq!(end, date(2021, 1, 10));
}

#[test]
fn previous_periods_end_the_day_before() {
    for period in [
        Period::Year(2026),
        Period::Half(2026, 1),
        Period::Quarter(2026, 1),
        Period::Month(2024, 3),
        Period::Week(2026, 1),
        Period::Rolling(14, date(2026, 3, 1)),
    ] {
        let (start, _) = period.date_range();
        let (_, end) = period.previous().date_range();
        assert_eq!(start.days_since(&end), 1, "{}", period.to_key());
    }
}

#[test]
fn periods_outside_the_calendar_have_no_dates() {
    assert!(Period::Quarter(2026, 3).has_dates());
    assert!(!Period::Year(300_000).has_dates());
    assert!(!Period::Quarter(2026, 5).has_dates());
    assert!(!Period::Rolling(u32::MAX, date(2026, 7, 24)).has_dates());
    assert!(Period::Rolling(30, date(2026, 7, 24)).has_dates());
    assert!(Period::Week(2026, 53).has_dates(), "falls back to the first of January");
    assert!(!Period::Year(i32::MIN).has_previous());
    assert!(Period::Week(2026, 1).has_previous());
}

#[test]
fn a_complete_period_is_not_cut() {
    let quarter = Period::Quarter(2026, 2);
    let reference = date(2026, 7, 25);
    assert!(!quarter.is_partial(reference));
    assert_eq!(quarter.effective_end_date(reference), date(2026, 6, 30));
    assert_eq!(quarter.date_column(), "quarter_key");
}

#[test]
fn white_space_and_letter_case_make_no_difference_to_relative_forms() {
    let reference = date(2026, 7, 24);
    for (text, expected) in [
        ("  This-Week\n", Period::Week(2026, 30)),
        ("\tTHIS-MONTH ", Period::Month(2026, 7)),
        ("This-Quarter", Period::Quarter(2026, 3)),
        (" this-YEAR", Period::Year(2026)),
        ("Previous-Week", Period::Week(2026, 29)),
        ("PREVIOUS-MONTH\r\n", Period::Month(2026, 6)),
        ("previous-quarteR", Period::Quarter(2026, 2)),
        ("  previous-year  ", Period::Year(2025)),
        (" LAST-14", Period::Rolling(14, reference)),
    ] {
        assert_eq!(parse(text).unwrap(), expected, "{}", text);
        assert_eq!(parse(&text.trim().to_lowercase()).unwrap(), expected, "{}", text);
    }
}

#[test]
fn rolling_keys_read_back_on_the_reference_day() {
    let reference = date(2026, 7, 24);
    for days in [0, 1, 30, u32::MAX] {
        let window = Period::Rolling(days, reference);
        assert_eq!(parse(&window.to_key()).unwrap(), window);
    }
}

#[test]
fn keys_are_found_in_the_column_of_their_period() {
    for period in [
        Period::Year(2026),
        Period::Half(2026, 2),
        Period::Quarter(-5, 1),
        Period::Month(2026, 12),
        Period::Week(2026, 9),
    ] {
        assert_eq!(Period::column_for_key(&period.to_key()), period.date_column());
    }
}

#[test]
fn only_the_week_before_the_first_is_missing() {
    let first = date(MIN_YEAR, 1, 1);
    assert_eq!(first.iso_week(), (MIN_YEAR, 1));
    assert!(Period::parse_in_calendar(" Previous-Week", first).is_none());
    assert_eq!(
        Period::parse_in_calendar("this-week", first).unwrap().unwrap(),
        Period::Week(MIN_YEAR, 1)
    );
    assert_eq!(
        Period::parse_with_reference("previous-year", first).unwrap(),
        Period::Year(MIN_YEAR - 1)
    );
    assert_eq!(
        Period::parse_in_calendar("previous-week", date(MIN_YEAR, 1, 5)).unwrap().unwrap(),
        Period::Week(MIN_YEAR, 1)
    );
    assert!(matches!(
        Period::parse_in_calendar("nope", first),
        Some(Err(Error::InvalidArgument(_)))
    ));
}
