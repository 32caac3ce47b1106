use fraglog::parse::{
    detect_between_date_datetime_or_time, parse_date, parse_datetime, parse_time,
    select_search_mode, ConfigError, ExpectedFormat, Field, ParseError,
};
use fraglog::temporal::{Date, Datetime, Time};

#[test]
fn test_parse_datetime_valid_input() {
    let valid_date = "2025-03-15Z06:12:30";
    let result = parse_datetime(&valid_date).unwrap();
    assert_eq!(result.date.year, 2025);
    assert_eq!(result.date.month, 3);
    assert_eq!(result.date.day, 15);
    assert_eq!(result.time.hour, 6);
    assert_eq!(result.time.minut, 12);
    assert_eq!(result.time.second, 30);
}

#[test]
fn parse_round_trips_numeric_fields_exactly() {
    let result = parse_datetime("2025-03-15 06:12:30").unwrap();
    assert_eq!(result.date.year, 2025);
    assert_eq!(result.date.month, 3);
    assert_eq!(result.date.day, 15);
    assert_eq!(result.time.hour, 6);
    assert_eq!(result.time.minut, 12);
    assert_eq!(result.time.second, 30);
    // Rendering the parsed value reproduces the canonical display form.
    assert_eq!(result.date.render(), "2025-03-15");
    assert_eq!(result.time.render(), "06:12:30");
    assert_eq!(result.render(), "2025-03-15T06:12:30");
    // Parsing the rendered form gives back the same numeric fields.
    let again = parse_datetime(&result.render()).unwrap();
    assert_eq!(again, result);
}

#[test]
fn parse_time_reads_prefix_and_ignores_rest() {
    let t = parse_time("11:30:00 something happened").unwrap();
    assert_eq!(t, Time { hour: 11, minut: 30, second: 0 });
}

#[test]
fn parse_time_too_short() {
    assert_eq!(parse_time("07:00"), Err(ParseError::TimeTooShort));
}

#[test]
fn parse_date_too_short() {
    assert_eq!(parse_date("2025-03"), Err(ParseError::DateTooShort));
}

#[test]
fn parse_datetime_too_short() {
    assert_eq!(parse_datetime("2025-03-15 06:12"), Err(ParseError::DatetimeTooShort));
}

#[test]
fn parse_reports_the_offending_field() {
    assert_eq!(parse_time("aa:00:00"), Err(ParseError::NonNumeric(Field::Hour)));
    assert_eq!(parse_time("10:x0:00"), Err(ParseError::NonNumeric(Field::Minute)));
    assert_eq!(parse_time("10:00:0x"), Err(ParseError::NonNumeric(Field::Second)));
    assert_eq!(parse_date("yyyy-03-15"), Err(ParseError::NonNumeric(Field::Year)));
    assert_eq!(parse_date("2025-mm-15"), Err(ParseError::NonNumeric(Field::Month)));
    assert_eq!(parse_date("2025-03-dd"), Err(ParseError::NonNumeric(Field::Day)));
    assert_eq!(
        parse_datetime("2025-03-15 06:12:3x"),
        Err(ParseError::NonNumeric(Field::Second))
    );
}

#[test]
fn detect_classifies_by_length() {
    let time_only = detect_between_date_datetime_or_time("10:00:00").unwrap();
    assert!(time_only.empty_date);
    assert!(!time_only.empty_time);
    assert_eq!(time_only.time, Time { hour: 10, minut: 0, second: 0 });
    assert_eq!(time_only.date, Date { year: 0, month: 0, day: 0 });

    let date_only = detect_between_date_datetime_or_time("2025-04-10").unwrap();
    assert!(!date_only.empty_date);
    assert!(date_only.empty_time);
    assert_eq!(date_only.date, Date { year: 2025, month: 4, day: 10 });
    assert_eq!(date_only.time, Time { hour: 0, minut: 0, second: 0 });

    let full = detect_between_date_datetime_or_time("2025-04-10 10:00:00").unwrap();
    assert!(!full.empty_date);
    assert!(!full.empty_time);
    assert_eq!(full.date, Date { year: 2025, month: 4, day: 10 });
    assert_eq!(full.time, Time { hour: 10, minut: 0, second: 0 });
}

#[test]
fn detect_rejects_other_lengths() {
    assert_eq!(
        detect_between_date_datetime_or_time("10:00:00x"),
        Err(ConfigError::InvalidSize)
    );
    assert_eq!(detect_between_date_datetime_or_time(""), Err(ConfigError::InvalidSize));
}

#[test]
fn detect_propagates_token_parse_errors() {
    assert_eq!(
        detect_between_date_datetime_or_time("1o:00:00"),
        Err(ConfigError::Token(ParseError::NonNumeric(Field::Hour)))
    );
}

#[test]
fn time_only_boundaries_select_time_only_mode() {
    let start = detect_between_date_datetime_or_time("10:00:00").unwrap();
    let end = detect_between_date_datetime_or_time("12:00:00").unwrap();
    assert_eq!(select_search_mode(&start, &end), Ok(ExpectedFormat::TimeOnly));
}

#[test]
fn date_bearing_boundaries_select_date_and_time_mode() {
    let start = detect_between_date_datetime_or_time("2025-04-10").unwrap();
    let end = detect_between_date_datetime_or_time("2025-04-11 10:00:00").unwrap();
    assert_eq!(select_search_mode(&start, &end), Ok(ExpectedFormat::DateAndTime));
}

#[test]
fn mixed_boundary_formats_are_a_configuration_error() {
    let start = detect_between_date_datetime_or_time("2025-04-10").unwrap();
    let end = detect_between_date_datetime_or_time("10:00:00").unwrap();
    assert_eq!(select_search_mode(&start, &end), Err(ConfigError::MismatchedFormats));
    let other_way = select_search_mode(&end, &start);
    assert_eq!(other_way, Err(ConfigError::MismatchedFormats));
}

#[test]
fn render_zero_pads_single_digit_fields() {
    let d = Datetime {
        date: Date { year: 987, month: 4, day: 5 },
        time: Time { hour: 6, minut: 7, second: 8 },
        empty_date: false,
        empty_time: false,
    };
    assert_eq!(d.render(), "0987-04-05T06:07:08");
}
