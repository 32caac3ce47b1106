//! Fixed-format parsing of `HH:MM:SS`, `YYYY-MM-DD` and
//! `YYYY-MM-DD HH:MM:SS` tokens, and the boundary-format detector.
//!
//! Parsers read a fixed-width character prefix and ignore the remainder
//! of the input, so a whole log line can be handed to them directly.

use vstd::prelude::*;
use vstd::string::*;

use crate::temporal::{digit_char, spec_render_date, spec_render_datetime, spec_render_time, Date,
    Datetime, Time};

verus! {

/// Which numeric subfield of a token failed to parse.
#[derive(Clone, Copy, Debug, PartialEq, Eq, Structural)]
pub enum Field {
    Year,
    Month,
    Day,
    Hour,
    Minute,
    Second,
}

/// Why a token could not be parsed.
#[derive(Clone, Copy, Debug, PartialEq, Eq, Structural)]
pub enum ParseError {
    /// Fewer than 8 characters where a time was expected.
    TimeTooShort,
    /// Fewer than 10 characters where a date was expected.
    DateTooShort,
    /// Fewer than 19 characters where a full datetime was expected.
    DatetimeTooShort,
    /// The named subfield holds a non-digit character.
    NonNumeric(Field),
}

/// A decimal digit character.
pub open spec fn is_digit(c: char) -> bool {
    48 <= c as int <= 57
}

/// The numeric value of a decimal digit character.
pub open spec fn digit_val(c: char) -> int {
    c as int - 48
}

/// The value of the two-digit field at positions `i`, `i + 1`.
pub open spec fn two_digit_val(s: Seq<char>, i: int) -> int {
    digit_val(s[i]) * 10 + digit_val(s[i + 1])
}

/// The value of the four-digit field at positions `i` .. `i + 3`.
pub open spec fn four_digit_val(s: Seq<char>, i: int) -> int {
    digit_val(s[i]) * 1000 + digit_val(s[i + 1]) * 100 + digit_val(s[i + 2]) * 10 + digit_val(
        s[i + 3],
    )
}

/// Both characters of the two-digit field at `i` are digits.
pub open spec fn two_digits_at(s: Seq<char>, i: int) -> bool {
    is_digit(s[i]) && is_digit(s[i + 1])
}

/// All four characters of the four-digit field at `i` are digits.
pub open spec fn four_digits_at(s: Seq<char>, i: int) -> bool {
    is_digit(s[i]) && is_digit(s[i + 1]) && is_digit(s[i + 2]) && is_digit(s[i + 3])
}

/// What parsing a time from the first 8 characters yields: the exact
/// result, error cases included. Fields are checked in the order hour,
/// minute, second; separator positions are never inspected.
pub open spec fn spec_parse_time(s: Seq<char>) -> Result<Time, ParseError> {
    if s.len() < 8 {
        Err(ParseError::TimeTooShort)
    } else if !two_digits_at(s, 0) {
        Err(ParseError::NonNumeric(Field::Hour))
    } else if !two_digits_at(s, 3) {
        Err(ParseError::NonNumeric(Field::Minute))
    } else if !two_digits_at(s, 6) {
        Err(ParseError::NonNumeric(Field::Second))
    } else {
        Ok(
            Time {
                hour: two_digit_val(s, 0) as u8,
                minut: two_digit_val(s, 3) as u8,
                second: two_digit_val(s, 6) as u8,
            },
        )
    }
}

/// What parsing a date from the first 10 characters yields: the exact
/// result, error cases included. Fields are checked in the order year,
/// month, day.
pub open spec fn spec_parse_date(s: Seq<char>) -> Result<Date, ParseError> {
    if s.len() < 10 {
        Err(ParseError::DateTooShort)
    } else if !four_digits_at(s, 0) {
        Err(ParseError::NonNumeric(Field::Year))
    } else if !two_digits_at(s, 5) {
        Err(ParseError::NonNumeric(Field::Month))
    } else if !two_digits_at(s, 8) {
        Err(ParseError::NonNumeric(Field::Day))
    } else {
        Ok(
            Date {
                year: four_digit_val(s, 0) as u16,
                month: two_digit_val(s, 5) as u8,
                day: two_digit_val(s, 8) as u8,
            },
        )
    }
}

/// What parsing a full datetime from the first 19 characters yields:
/// the date from characters [0, 10), the time from [11, 19), both
/// components marked present.
pub open spec fn spec_parse_datetime(s: Seq<char>) -> Result<Datetime, ParseError> {
    if s.len() < 19 {
        Err(ParseError::DatetimeTooShort)
    } else {
        match spec_parse_date(s.subrange(0, 10)) {
            Err(e) => Err(e),
            Ok(date) => match spec_parse_time(s.subrange(11, 19)) {
                Err(e) => Err(e),
                Ok(time) => Ok(Datetime { date, time, empty_date: false, empty_time: false }),
            },
        }
    }
}

/// Reads the character at `i` as a decimal digit, or reports that it is
/// not one.
fn digit_at(s: &str, i: usize) -> (r: Option<u8>)
    requires
        i < s@.len(),
    ensures
        r matches Some(d) ==> is_digit(s@[i as int]) && d as int == digit_val(s@[i as int]),
        r is None ==> !is_digit(s@[i as int]),
{
    let c = s.get_char(i);
    let u = c as u32;
    if 48 <= u && u <= 57 {
        Some((u - 48) as u8)
    } else {
        None
    }
}

/// Reads the two-digit field at positions `i`, `i + 1`.
fn two_digits(s: &str, i: usize) -> (r: Option<u8>)
    requires
        i + 1 < s@.len(),
        s@.len() <= usize::MAX,
    ensures
        r matches Some(v) ==> two_digits_at(s@, i as int) && v as int == two_digit_val(
            s@,
            i as int,
        ),
        r is None ==> !two_digits_at(s@, i as int),
{
    match (digit_at(s, i), digit_at(s, i + 1)) {
        (Some(a), Some(b)) => Some(a * 10 + b),
        _ => None,
    }
}

/// Reads the four-digit field at positions `i` .. `i + 3`.
fn four_digits(s: &str, i: usize) -> (r: Option<u16>)
    requires
        i + 3 < s@.len(),
        s@.len() <= usize::MAX,
    ensures
        r matches Some(v) ==> four_digits_at(s@, i as int) && v as int == four_digit_val(
            s@,
            i as int,
        ),
        r is None ==> !four_digits_at(s@, i as int),
{
    match (digit_at(s, i), digit_at(s, i + 1), digit_at(s, i + 2), digit_at(s, i + 3)) {
        (Some(a), Some(b), Some(c), Some(d)) => Some(
            (a as u16) * 1000 + (b as u16) * 100 + (c as u16) * 10 + (d as u16),
        ),
        _ => None,
    }
}

/// Parses a time of day from the first 8 characters, `HH:MM:SS`.
/// Characters beyond position 7 are ignored.
pub fn parse_time(raw_line: &str) -> (r: Result<Time, ParseError>)
    ensures
        r == spec_parse_time(raw_line@),
{
    if raw_line.unicode_len() < 8 {
        return Err(ParseError::TimeTooShort);
    }
    let hour = match two_digits(raw_line, 0) {
        Some(v) => v,
        None => {
            return Err(ParseError::NonNumeric(Field::Hour));
        },
    };
    let minut = match two_digits(raw_line, 3) {
        Some(v) => v,
        None => {
            return Err(ParseError::NonNumeric(Field::Minute));
        },
    };
    let second = match two_digits(raw_line, 6) {
        Some(v) => v,
        None => {
            return Err(ParseError::NonNumeric(Field::Second));
        },
    };
    Ok(Time { hour, minut, second })
}

/// Parses a calendar date from the first 10 characters, `YYYY-MM-DD`.
/// Characters beyond position 9 are ignored.
pub fn parse_date(raw_line: &str) -> (r: Result<Date, ParseError>)
    ensures
        r == spec_parse_date(raw_line@),
{
    if raw_line.unicode_len() < 10 {
        return Err(ParseError::DateTooShort);
    }
    let year = match four_digits(raw_line, 0) {
        Some(v) => v,
        None => {
            return Err(ParseError::NonNumeric(Field::Year));
        },
    };
    let month = match two_digits(raw_line, 5) {
        Some(v) => v,
        None => {
            return Err(ParseError::NonNumeric(Field::Month));
        },
    };
    let day = match two_digits(raw_line, 8) {
        Some(v) => v,
        None => {
            return Err(ParseError::NonNumeric(Field::Day));
        },
    };
    Ok(Date { year, month, day })
}

/// Parses a full datetime from the first 19 characters: the date from
/// characters [0, 10), one separator character that is never inspected,
/// and the time from [11, 19). Characters beyond position 18 are
/// ignored.
pub fn parse_datetime(raw_line: &str) -> (r: Result<Datetime, ParseError>)
    ensures
        r == spec_parse_datetime(raw_line@),
{
    if raw_line.unicode_len() < 19 {
        return Err(ParseError::DatetimeTooShort);
    }
    let date_part = raw_line.substring_char(0, 10);
    let time_part = raw_line.substring_char(11, 19);
    let date = match parse_date(date_part) {
        Ok(d) => d,
        Err(e) => {
            return Err(e);
        },
    };
    let time = match parse_time(time_part) {
        Ok(t) => t,
        Err(e) => {
            return Err(e);
        },
    };
    Ok(Datetime { date, time, empty_date: false, empty_time: false })
}

/// Why the pair of boundary tokens cannot configure a scan.
#[derive(Clone, Copy, Debug, PartialEq, Eq, Structural)]
pub enum ConfigError {
    /// A boundary token's length is not 8, 10 or 19 characters.
    InvalidSize,
    /// One boundary is time-only while the other carries a date.
    MismatchedFormats,
    /// A boundary token of a recognised length failed to parse.
    Token(ParseError),
}

/// Whether comparisons for a run use the full date and time or the
/// time of day only, chosen once from both boundary tokens.
#[derive(Clone, Copy, Debug, PartialEq, Eq, Structural)]
pub enum ExpectedFormat {
    TimeOnly,
    DateAndTime,
}

/// What classifying a boundary token by its length yields: 8 characters
/// parse as a time with the date zero-filled and marked absent, 10 as a
/// date with the time zero-filled and marked absent, 19 as a full
/// datetime; any other length is a configuration error.
pub open spec fn spec_detect(s: Seq<char>) -> Result<Datetime, ConfigError> {
    if s.len() == 8 {
        match spec_parse_time(s) {
            Ok(time) => Ok(
                Datetime {
                    date: Date { year: 0, month: 0, day: 0 },
                    time,
                    empty_date: true,
                    empty_time: false,
                },
            ),
            Err(e) => Err(ConfigError::Token(e)),
        }
    } else if s.len() == 10 {
        match spec_parse_date(s) {
            Ok(date) => Ok(
                Datetime {
                    date,
                    time: Time { hour: 0, minut: 0, second: 0 },
                    empty_date: false,
                    empty_time: true,
                },
            ),
            Err(e) => Err(ConfigError::Token(e)),
        }
    } else if s.len() == 19 {
        match spec_parse_datetime(s) {
            Ok(dt) => Ok(dt),
            Err(e) => Err(ConfigError::Token(e)),
        }
    } else {
        Err(ConfigError::InvalidSize)
    }
}

/// Classifies a boundary token by its character length and parses it:
/// 8 characters give a time-only boundary, 10 a date-only boundary with
/// the time zero-filled, 19 a full datetime. Any other length is a
/// configuration error.
pub fn detect_between_date_datetime_or_time(input_value: &str) -> (r: Result<Datetime, ConfigError>)
    ensures
        r == spec_detect(input_value@),
{
    let input_size = input_value.unicode_len();
    if input_size == 8 {
        match parse_time(input_value) {
            Ok(time) => Ok(
                Datetime {
                    date: Date { year: 0, month: 0, day: 0 },
                    time,
                    empty_date: true,
                    empty_time: false,
                },
            ),
            Err(e) => Err(ConfigError::Token(e)),
        }
    } else if input_size == 10 {
        match parse_date(input_value) {
            Ok(date) => Ok(
                Datetime {
                    date,
                    time: Time { hour: 0, minut: 0, second: 0 },
                    empty_date: false,
                    empty_time: true,
                },
            ),
            Err(e) => Err(ConfigError::Token(e)),
        }
    } else if input_size == 19 {
        match parse_datetime(input_value) {
            Ok(dt) => Ok(dt),
            Err(e) => Err(ConfigError::Token(e)),
        }
    } else {
        Err(ConfigError::InvalidSize)
    }
}

/// What the search mode for a pair of detected boundaries is: time-only
/// when both lack a date, date-and-time when both carry one, and a
/// configuration error when the two disagree.
pub open spec fn spec_search_mode(start: Datetime, end: Datetime) -> Result<
    ExpectedFormat,
    ConfigError,
> {
    if start.empty_date && end.empty_date {
        Ok(ExpectedFormat::TimeOnly)
    } else if !start.empty_date && !end.empty_date {
        Ok(ExpectedFormat::DateAndTime)
    } else {
        Err(ConfigError::MismatchedFormats)
    }
}

/// A decimal digit character stands for the value it was rendered
/// from.
proof fn lemma_digit_char_val(v: int)
    requires
        0 <= v <= 9,
    ensures
        is_digit(digit_char(v)),
        digit_val(digit_char(v)) == v,
{
}

/// Rendering a time and parsing the result gives back its numeric
/// fields exactly.
pub proof fn lemma_render_parse_time(t: Time)
    requires
        t.hour < 100,
        t.minut < 100,
        t.second < 100,
    ensures
        spec_parse_time(spec_render_time(t)) == Ok::<Time, ParseError>(t),
{
    let s = spec_render_time(t);
    assert(s =~= seq![
        digit_char(t.hour as int / 10),
        digit_char(t.hour as int % 10),
        ':',
        digit_char(t.minut as int / 10),
        digit_char(t.minut as int % 10),
        ':',
        digit_char(t.second as int / 10),
        digit_char(t.second as int % 10),
    ]);
    lemma_digit_char_val(t.hour as int / 10);
    lemma_digit_char_val(t.hour as int % 10);
    lemma_digit_char_val(t.minut as int / 10);
    lemma_digit_char_val(t.minut as int % 10);
    lemma_digit_char_val(t.second as int / 10);
    lemma_digit_char_val(t.second as int % 10);
}

/// Rendering a date and parsing the result gives back its numeric
/// fields exactly.
#[verifier::rlimit(50)]
pub proof fn lemma_render_parse_date(d: Date)
    requires
        d.year < 10000,
        d.month < 100,
        d.day < 100,
    ensures
        spec_parse_date(spec_render_date(d)) == Ok::<Date, ParseError>(d),
{
    let s = spec_render_date(d);
    let y = d.year as int;
    assert(0 <= y / 1000 <= 9 && 0 <= (y / 100) % 10 <= 9 && 0 <= (y / 10) % 10 <= 9 && 0 <= y
        % 10 <= 9) by (nonlinear_arith)
        requires
            0 <= y < 10000,
    ;
    assert((y / 1000) * 1000 + ((y / 100) % 10) * 100 + ((y / 10) % 10) * 10 + y % 10 == y)
        by (nonlinear_arith)
        requires
            0 <= y < 10000,
    ;
    assert(s =~= seq![
        digit_char(y / 1000),
        digit_char((y / 100) % 10),
        digit_char((y / 10) % 10),
        digit_char(y % 10),
        '-',
        digit_char(d.month as int / 10),
        digit_char(d.month as int % 10),
        '-',
        digit_char(d.day as int / 10),
        digit_char(d.day as int % 10),
    ]);
    lemma_digit_char_val(y / 1000);
    lemma_digit_char_val((y / 100) % 10);
    lemma_digit_char_val((y / 10) % 10);
    lemma_digit_char_val(y % 10);
    lemma_digit_char_val(d.month as int / 10);
    lemma_digit_char_val(d.month as int % 10);
    lemma_digit_char_val(d.day as int / 10);
    lemma_digit_char_val(d.day as int % 10);
}

/// Rendering a fully-present datetime and parsing the result gives
/// back its numeric fields exactly.
pub proof fn lemma_render_parse_datetime(dt: Datetime)
    requires
        !dt.empty_date,
        !dt.empty_time,
        dt.date.year < 10000,
        dt.date.month < 100,
        dt.date.day < 100,
        dt.time.hour < 100,
        dt.time.minut < 100,
        dt.time.second < 100,
    ensures
        spec_parse_datetime(spec_render_datetime(dt)) == Ok::<Datetime, ParseError>(dt),
{
    let s = spec_render_datetime(dt);
    assert(s.len() == 19);
    assert(s.subrange(0, 10) =~= spec_render_date(dt.date));
    assert(s.subrange(11, 19) =~= spec_render_time(dt.time));
    lemma_render_parse_date(dt.date);
    lemma_render_parse_time(dt.time);
}

/// Derives the search mode for a run from the two detected boundaries.
/// Both must share the same presence mode; a mixed pair is a fatal
/// configuration error, never silently coerced.
pub fn select_search_mode(start: &Datetime, end: &Datetime) -> (r: Result<
    ExpectedFormat,
    ConfigError,
>)
    ensures
        r == spec_search_mode(*start, *end),
{
    if start.empty_date && end.empty_date {
        Ok(ExpectedFormat::TimeOnly)
    } else if !start.empty_date && !end.empty_date {
        Ok(ExpectedFormat::DateAndTime)
    } else {
        Err(ConfigError::MismatchedFormats)
    }
}

} // verus!
