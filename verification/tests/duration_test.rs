//! ISO 8601 durations of timer events.

use bpmn_engine::engine::timer::{duration_seconds, parse_iso8601_duration};

#[test]
fn test_parse_days() {
    let dur = parse_iso8601_duration("PT3D").unwrap();
    assert_eq!(dur.num_days(), 3);
}

#[test]
fn test_parse_hours() {
    let dur = parse_iso8601_duration("PT24H").unwrap();
    assert_eq!(dur.num_hours(), 24);
}

#[test]
fn test_parse_duration() {
    let dur = parse_iso8601_duration("PT1H30M").unwrap();
    assert_eq!(dur.num_minutes(), 90);
}

#[test]
fn test_parse_repeating() {
    let dur = parse_iso8601_duration("R/PT1H").unwrap();
    assert_eq!(dur.num_hours(), 1);
}

#[test]
fn date_part_counts_years_months_and_days() {
    assert_eq!(duration_seconds("P1Y"), Ok(12 * 30 * 86400));
    assert_eq!(duration_seconds("P2M3D"), Ok(2 * 30 * 86400 + 3 * 86400));
    assert_eq!(duration_seconds("P1DT2H3M4S"), Ok(86400 + 2 * 3600 + 3 * 60 + 4));
}

#[test]
fn repeating_prefix_and_white_space_are_ignored() {
    assert_eq!(duration_seconds("  R/PT45S "), duration_seconds("PT45S"));
    assert_eq!(duration_seconds("PT45S"), Ok(45));
}

#[test]
fn text_without_p_is_rejected() {
    let expected = "Invalid ISO 8601 duration: must start with P".to_string();
    assert_eq!(duration_seconds("T3H"), Err(expected.clone()));
    assert_eq!(duration_seconds(""), Err(expected.clone()));
    assert_eq!(parse_iso8601_duration("3 days").unwrap_err(), expected);
}

#[test]
fn delta_holds_the_computed_seconds() {
    let dur = parse_iso8601_duration("P1DT1S").unwrap();
    assert_eq!(dur.num_seconds(), 86401);
}
