//! Temporal value model: `Time`, `Date` and `Datetime` with a three-way
//! chronological comparison.
//!
//! Comparison is lexicographic on the numeric fields; no calendar
//! validation is performed (a month of 13 is an ordinary comparable
//! value, not an error).

use vstd::prelude::*;
use vstd::string::*;

verus! {

/// A time of day as raw numeric fields. Field ranges are not enforced.
#[derive(Clone, Copy, Debug, PartialEq, Eq, Structural)]
pub struct Time {
    pub hour: u8,
    pub minut: u8,
    pub second: u8,
}

/// A calendar date as raw numeric fields. Field ranges are not enforced.
#[derive(Clone, Copy, Debug, PartialEq, Eq, Structural)]
pub struct Date {
    pub year: u16,
    pub month: u8,
    pub day: u8,
}

/// A combined date and time. The `empty_*` flags record whether each
/// component was actually supplied by the caller or is a zero-filled
/// placeholder (a boundary token may carry only a time or only a date).
#[derive(Clone, Copy, Debug, PartialEq, Eq, Structural)]
pub struct Datetime {
    pub date: Date,
    pub time: Time,
    pub empty_date: bool,
    pub empty_time: bool,
}

/// Three-way comparison of two integers: -1, 0 or 1.
pub open spec fn cmp3(a: int, b: int) -> int {
    if a < b {
        -1
    } else if a > b {
        1
    } else {
        0
    }
}

/// Lexicographic comparison of two times on (hour, minute, second).
pub open spec fn time_cmp(a: Time, b: Time) -> int {
    if a.hour != b.hour {
        cmp3(a.hour as int, b.hour as int)
    } else if a.minut != b.minut {
        cmp3(a.minut as int, b.minut as int)
    } else {
        cmp3(a.second as int, b.second as int)
    }
}

/// Lexicographic comparison of two dates on (year, month, day).
pub open spec fn date_cmp(a: Date, b: Date) -> int {
    if a.year != b.year {
        cmp3(a.year as int, b.year as int)
    } else if a.month != b.month {
        cmp3(a.month as int, b.month as int)
    } else {
        cmp3(a.day as int, b.day as int)
    }
}

/// Comparison of two datetimes: dates first, times as tie-breaker.
pub open spec fn datetime_cmp(a: Datetime, b: Datetime) -> int {
    if date_cmp(a.date, b.date) != 0 {
        date_cmp(a.date, b.date)
    } else {
        time_cmp(a.time, b.time)
    }
}

/// The character for one decimal digit value.
pub open spec fn digit_char(v: int) -> char {
    if v == 0 {
        '0'
    } else if v == 1 {
        '1'
    } else if v == 2 {
        '2'
    } else if v == 3 {
        '3'
    } else if v == 4 {
        '4'
    } else if v == 5 {
        '5'
    } else if v == 6 {
        '6'
    } else if v == 7 {
        '7'
    } else if v == 8 {
        '8'
    } else {
        '9'
    }
}

/// A value rendered as two decimal digits, zero-padded.
pub open spec fn two_digit_seq(v: int) -> Seq<char> {
    seq![digit_char(v / 10), digit_char(v % 10)]
}

/// A value rendered as four decimal digits, zero-padded.
pub open spec fn four_digit_seq(v: int) -> Seq<char> {
    seq![
        digit_char(v / 1000),
        digit_char((v / 100) % 10),
        digit_char((v / 10) % 10),
        digit_char(v % 10),
    ]
}

/// The canonical display form of a time, `HH:MM:SS`.
pub open spec fn spec_render_time(t: Time) -> Seq<char> {
    two_digit_seq(t.hour as int) + seq![':'] + two_digit_seq(t.minut as int) + seq![':']
        + two_digit_seq(t.second as int)
}

/// The canonical display form of a date, `YYYY-MM-DD`.
pub open spec fn spec_render_date(d: Date) -> Seq<char> {
    four_digit_seq(d.year as int) + seq!['-'] + two_digit_seq(d.month as int) + seq!['-']
        + two_digit_seq(d.day as int)
}

/// The canonical display form of a datetime, `YYYY-MM-DDTHH:MM:SS`.
pub open spec fn spec_render_datetime(dt: Datetime) -> Seq<char> {
    spec_render_date(dt.date) + seq!['T'] + spec_render_time(dt.time)
}

/// The string for one decimal digit value.
fn digit_str(d: u8) -> (r: &'static str)
    requires
        d <= 9,
    ensures
        r@ == seq![digit_char(d as int)],
{
    proof {
        reveal_strlit("0");
        reveal_strlit("1");
        reveal_strlit("2");
        reveal_strlit("3");
        reveal_strlit("4");
        reveal_strlit("5");
        reveal_strlit("6");
        reveal_strlit("7");
        reveal_strlit("8");
        reveal_strlit("9");
    }
    let r = if d == 0 {
        "0"
    } else if d == 1 {
        "1"
    } else if d == 2 {
        "2"
    } else if d == 3 {
        "3"
    } else if d == 4 {
        "4"
    } else if d == 5 {
        "5"
    } else if d == 6 {
        "6"
    } else if d == 7 {
        "7"
    } else if d == 8 {
        "8"
    } else {
        "9"
    };
    proof {
        assert(r@ =~= seq![digit_char(d as int)]);
    }
    r
}

/// Appends a value as two zero-padded decimal digits.
fn append_two_digits(s: &mut String, v: u8)
    requires
        v < 100,
    ensures
        final(s)@ == old(s)@ + two_digit_seq(v as int),
{
    s.append(digit_str(v / 10));
    s.append(digit_str(v % 10));
    proof {
        assert(s@ =~= old(s)@ + two_digit_seq(v as int));
    }
}

/// Appends a value as four zero-padded decimal digits.
fn append_four_digits(s: &mut String, v: u16)
    requires
        v < 10000,
    ensures
        final(s)@ == old(s)@ + four_digit_seq(v as int),
{
    s.append(digit_str((v / 1000) as u8));
    s.append(digit_str(((v / 100) % 10) as u8));
    s.append(digit_str(((v / 10) % 10) as u8));
    s.append(digit_str((v % 10) as u8));
    proof {
        assert(s@ =~= old(s)@ + four_digit_seq(v as int));
    }
}

impl Time {
    /// Three-way chronological comparison: -1 if `self` is earlier than
    /// `another`, 0 if equal, 1 if later.
    pub fn compare_with(&self, another: &Time) -> (r: i8)
        ensures
            r as int == time_cmp(*self, *another),
    {
        if another.hour > self.hour {
            -1
        } else if another.hour < self.hour {
            1
        } else if another.minut > self.minut {
            -1
        } else if another.minut < self.minut {
            1
        } else if another.second > self.second {
            -1
        } else if another.second < self.second {
            1
        } else {
            0
        }
    }

    /// Renders the time in its canonical display form, `HH:MM:SS`.
    /// Fields must fit their two-digit columns.
    pub fn render(&self) -> (r: String)
        requires
            self.hour < 100,
            self.minut < 100,
            self.second < 100,
        ensures
            r@ == spec_render_time(*self),
    {
        proof {
            reveal_strlit(":");
        }
        let mut r = String::new();
        append_two_digits(&mut r, self.hour);
        r.append(":");
        append_two_digits(&mut r, self.minut);
        r.append(":");
        append_two_digits(&mut r, self.second);
        proof {
            assert(r@ =~= spec_render_time(*self));
        }
        r
    }
}

impl Date {
    /// Three-way chronological comparison: -1 if `self` is earlier than
    /// `another`, 0 if equal, 1 if later.
    pub fn compare_with(&self, another: &Date) -> (r: i8)
        ensures
            r as int == date_cmp(*self, *another),
    {
        if another.year > self.year {
            -1
        } else if another.year < self.year {
            1
        } else if another.month > self.month {
            -1
        } else if another.month < self.month {
            1
        } else if another.day > self.day {
            -1
        } else if another.day < self.day {
            1
        } else {
            0
        }
    }

    /// Renders the date in its canonical display form, `YYYY-MM-DD`.
    /// Fields must fit their digit columns.
    pub fn render(&self) -> (r: String)
        requires
            self.year < 10000,
            self.month < 100,
            self.day < 100,
        ensures
            r@ == spec_render_date(*self),
    {
        proof {
            reveal_strlit("-");
        }
        let mut r = String::new();
        append_four_digits(&mut r, self.year);
        r.append("-");
        append_two_digits(&mut r, self.month);
        r.append("-");
        append_two_digits(&mut r, self.day);
        proof {
            assert(r@ =~= spec_render_date(*self));
        }
        r
    }
}

impl Datetime {
    /// The time-of-day component.
    pub fn get_time(&self) -> (r: &Time)
        ensures
            *r == self.time,
    {
        &self.time
    }

    /// Three-way chronological comparison: dates decide first, times
    /// break the tie. Meaningful only when both operands carry a date.
    pub fn compare_with(&self, another: &Datetime) -> (r: i8)
        ensures
            r as int == datetime_cmp(*self, *another),
    {
        let date_comparison = self.date.compare_with(&another.date);
        match date_comparison {
            0 => self.time.compare_with(&another.time),
            _ => date_comparison,
        }
    }

    /// Renders the datetime in its canonical display form,
    /// `YYYY-MM-DDTHH:MM:SS`. Fields must fit their digit columns.
    pub fn render(&self) -> (r: String)
        requires
            self.date.year < 10000,
            self.date.month < 100,
            self.date.day < 100,
            self.time.hour < 100,
            self.time.minut < 100,
            self.time.second < 100,
        ensures
            r@ == spec_render_datetime(*self),
    {
        proof {
            reveal_strlit("T");
        }
        let mut r = self.date.render();
        r.append("T");
        let time_part = self.time.render();
        r.append(time_part.as_str());
        proof {
            assert(r@ =~= spec_render_datetime(*self));
        }
        r
    }
}

/// The comparison of a time with itself is `equal`.
pub proof fn lemma_time_cmp_reflexive(a: Time)
    ensures
        time_cmp(a, a) == 0,
{
}

/// Swapping the operands of a time comparison negates the result.
pub proof fn lemma_time_cmp_antisymmetric(a: Time, b: Time)
    ensures
        time_cmp(a, b) == -time_cmp(b, a),
{
}

/// The strict order induced by time comparison is transitive.
pub proof fn lemma_time_cmp_transitive(a: Time, b: Time, c: Time)
    requires
        time_cmp(a, b) == -1,
        time_cmp(b, c) == -1,
    ensures
        time_cmp(a, c) == -1,
{
}

/// The comparison of a date with itself is `equal`.
pub proof fn lemma_date_cmp_reflexive(a: Date)
    ensures
        date_cmp(a, a) == 0,
{
}

/// Swapping the operands of a date comparison negates the result.
pub proof fn lemma_date_cmp_antisymmetric(a: Date, b: Date)
    ensures
        date_cmp(a, b) == -date_cmp(b, a),
{
}

/// The strict order induced by date comparison is transitive.
pub proof fn lemma_date_cmp_transitive(a: Date, b: Date, c: Date)
    requires
        date_cmp(a, b) == -1,
        date_cmp(b, c) == -1,
    ensures
        date_cmp(a, c) == -1,
{
}

/// The comparison of a datetime with itself is `equal`.
pub proof fn lemma_datetime_cmp_reflexive(a: Datetime)
    ensures
        datetime_cmp(a, a) == 0,
{
}

/// Swapping the operands of a datetime comparison negates the result.
pub proof fn lemma_datetime_cmp_antisymmetric(a: Datetime, b: Datetime)
    ensures
        datetime_cmp(a, b) == -datetime_cmp(b, a),
{
}

/// The strict order induced by datetime comparison is transitive.
pub proof fn lemma_datetime_cmp_transitive(a: Datetime, b: Datetime, c: Datetime)
    requires
        datetime_cmp(a, b) == -1,
        datetime_cmp(b, c) == -1,
    ensures
        datetime_cmp(a, c) == -1,
{
}

} // verus!
