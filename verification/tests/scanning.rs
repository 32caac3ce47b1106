use fraglog::parse::{
    detect_between_date_datetime_or_time, select_search_mode, ExpectedFormat, Field, ParseError,
};
use fraglog::scan::{scan_lines, ScanError};
use fraglog::temporal::Datetime;

fn lines_of(raw: &[&str]) -> Vec<String> {
    raw.iter().map(|s| s.to_string()).collect()
}

fn boundary(token: &str) -> Datetime {
    detect_between_date_datetime_or_time(token).unwrap()
}

fn datetime_window(start: &str, end: &str) -> (ExpectedFormat, Datetime, Datetime) {
    let s = boundary(start);
    let e = boundary(end);
    let mode = select_search_mode(&s, &e).unwrap();
    (mode, s, e)
}

#[test]
fn all_lines_within_window_are_all_emitted_in_order() {
    let (mode, start, end) = datetime_window("2025-04-10 10:00:00", "2025-04-10 12:00:00");
    let lines = lines_of(&[
        "2025-04-10 10:00:00 first",
        "2025-04-10 10:30:00 second",
        "2025-04-10 11:59:59 third",
        "2025-04-10 12:00:00 fourth",
    ]);
    let out = scan_lines(&lines, mode, &start, &end).unwrap();
    assert_eq!(out.emitted, lines);
    assert!(!out.warning);
}

#[test]
fn first_line_after_end_aborts_with_range_infeasible_error() {
    let (mode, start, end) = datetime_window("2025-04-10 10:00:00", "2025-04-10 12:00:00");
    let lines = lines_of(&[
        "2025-04-10 12:00:01 too late",
        "2025-04-10 13:00:00 later still",
    ]);
    let result = scan_lines(&lines, mode, &start, &end);
    assert_eq!(result.unwrap_err(), ScanError::StartsAfterWindow);
}

#[test]
fn first_line_strictly_inside_window_warns_and_is_emitted() {
    let (mode, start, end) = datetime_window("2025-04-10 10:00:00", "2025-04-10 12:00:00");
    let lines = lines_of(&[
        "2025-04-10 11:00:00 begins mid-window",
        "2025-04-10 11:30:00 more",
    ]);
    let out = scan_lines(&lines, mode, &start, &end).unwrap();
    assert!(out.warning);
    assert_eq!(out.emitted, lines);
}

#[test]
fn scan_stops_at_first_line_past_end_and_never_resumes() {
    let (mode, start, end) = datetime_window("2025-04-10 10:00:00", "2025-04-10 12:00:00");
    let lines = lines_of(&[
        "2025-04-10 10:00:00 in",
        "2025-04-10 11:00:00 in",
        "2025-04-10 12:30:00 past the end",
        "2025-04-10 11:30:00 back in range but unread",
    ]);
    let out = scan_lines(&lines, mode, &start, &end).unwrap();
    assert_eq!(
        out.emitted,
        lines_of(&["2025-04-10 10:00:00 in", "2025-04-10 11:00:00 in"])
    );
}

#[test]
fn time_only_boundaries_compare_by_time_of_day() {
    let (mode, start, end) = datetime_window("10:00:00", "12:00:00");
    assert_eq!(mode, ExpectedFormat::TimeOnly);
    let lines = lines_of(&[
        "09:00:00 before",
        "11:30:00 something happened",
        "13:00:00 after",
    ]);
    let out = scan_lines(&lines, mode, &start, &end).unwrap();
    assert_eq!(out.emitted, lines_of(&["11:30:00 something happened"]));
}

#[test]
fn scanning_twice_yields_identical_output() {
    let (mode, start, end) = datetime_window("2025-04-10 10:00:00", "2025-04-10 12:00:00");
    let lines = lines_of(&[
        "2025-04-10 09:00:00 before",
        "2025-04-10 10:30:00 in",
        "2025-04-10 11:30:00 in",
        "2025-04-10 12:30:00 after",
    ]);
    let first_run = scan_lines(&lines, mode, &start, &end).unwrap();
    let second_run = scan_lines(&lines, mode, &start, &end).unwrap();
    assert_eq!(first_run.emitted, second_run.emitted);
    assert_eq!(first_run.warning, second_run.warning);
    assert_eq!(
        first_run.emitted,
        lines_of(&["2025-04-10 10:30:00 in", "2025-04-10 11:30:00 in"])
    );
}

#[test]
fn empty_input_emits_nothing_without_error() {
    let (mode, start, end) = datetime_window("2025-04-10 10:00:00", "2025-04-10 12:00:00");
    let lines: Vec<String> = Vec::new();
    let out = scan_lines(&lines, mode, &start, &end).unwrap();
    assert!(out.emitted.is_empty());
    assert!(!out.warning);
}

#[test]
fn no_line_reaching_start_emits_nothing_without_error() {
    let (mode, start, end) = datetime_window("2025-04-10 10:00:00", "2025-04-10 12:00:00");
    let lines = lines_of(&[
        "2025-04-10 08:00:00 early",
        "2025-04-10 09:00:00 still early",
    ]);
    let out = scan_lines(&lines, mode, &start, &end).unwrap();
    assert!(out.emitted.is_empty());
    assert!(!out.warning);
}

#[test]
fn malformed_line_aborts_with_its_index_and_field() {
    let (mode, start, end) = datetime_window("2025-04-10 10:00:00", "2025-04-10 12:00:00");
    let lines = lines_of(&[
        "2025-04-10 10:00:00 fine",
        "2025-04-10 1o:30:00 corrupt hour",
    ]);
    let result = scan_lines(&lines, mode, &start, &end);
    assert_eq!(
        result.unwrap_err(),
        ScanError::LineParse { index: 1, error: ParseError::NonNumeric(Field::Hour) }
    );
}

#[test]
fn date_only_end_boundary_means_midnight_of_that_day() {
    // A date-only end boundary has its time zero-filled, so lines later
    // on that day fall outside the window.
    let (mode, start, end) = datetime_window("2025-04-09", "2025-04-10");
    let lines = lines_of(&[
        "2025-04-09 12:00:00 in",
        "2025-04-10 00:00:00 midnight boundary",
        "2025-04-10 00:00:01 past midnight",
    ]);
    let out = scan_lines(&lines, mode, &start, &end).unwrap();
    assert_eq!(
        out.emitted,
        lines_of(&["2025-04-09 12:00:00 in", "2025-04-10 00:00:00 midnight boundary"])
    );
}
