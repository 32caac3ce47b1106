//! The streaming range scan: a state machine that decides, line by
//! line, whether a log line is emitted, skipped, or ends the scan.
//!
//! The scan starts in a searching state and switches to an emitting
//! state at the first line whose timestamp is at or after the start
//! boundary; it emits while in the emitting state and stops for good at
//! the first emitting-state line past the end boundary. The very first
//! line is additionally checked against the window: a first line past
//! the end boundary makes the whole scan infeasible, and a first line
//! strictly after the start boundary raises a warning that earlier
//! matching lines may be missing from the file.
//!
//! The input is assumed chronologically non-decreasing; the scan does
//! not check or enforce this, and on unsorted input it simply applies
//! the same state machine.

use vstd::prelude::*;

use crate::parse::{parse_datetime, parse_time, spec_parse_datetime, spec_parse_time,
    ExpectedFormat, ParseError};
use crate::temporal::{datetime_cmp, time_cmp, Date, Datetime};

verus! {

/// Why a scan aborted.
#[derive(Clone, Copy, Debug, PartialEq, Eq, Structural)]
pub enum ScanError {
    /// The file's very first line is already past the end boundary:
    /// the whole file lies after the requested window.
    StartsAfterWindow,
    /// The line at `index` has a malformed timestamp prefix; log
    /// corruption aborts the scan rather than silently dropping lines.
    LineParse { index: usize, error: ParseError },
}

/// What a completed scan produced: the emitted lines, verbatim and in
/// input order, and whether the file was found to begin strictly
/// inside the requested window.
#[derive(Debug)]
pub struct ScanOutcome {
    pub emitted: Vec<String>,
    pub warning: bool,
}

/// Comparison of two timestamps under a search mode: time-of-day only,
/// or dates first with times as tie-breaker.
pub open spec fn boundary_cmp(mode: ExpectedFormat, a: Datetime, b: Datetime) -> int {
    match mode {
        ExpectedFormat::TimeOnly => time_cmp(a.time, b.time),
        ExpectedFormat::DateAndTime => datetime_cmp(a, b),
    }
}

/// What the timestamp prefix of a log line denotes under a search
/// mode: the full datetime in date-and-time mode, the time of day with
/// a zero-filled absent date in time-only mode.
pub open spec fn spec_line_value(mode: ExpectedFormat, line: Seq<char>) -> Result<
    Datetime,
    ParseError,
> {
    match mode {
        ExpectedFormat::DateAndTime => spec_parse_datetime(line),
        ExpectedFormat::TimeOnly => match spec_parse_time(line) {
            Ok(time) => Ok(
                Datetime {
                    date: Date { year: 0, month: 0, day: 0 },
                    time,
                    empty_date: true,
                    empty_time: false,
                },
            ),
            Err(e) => Err(e),
        },
    }
}

/// One decision of the state machine, given the current state and a
/// line's timestamp: `.0` says whether the line is emitted, `.1`
/// whether the scan stops before this line. While searching, a line at
/// or after the start boundary is emitted and switches the scan to
/// emitting; while emitting, a line past the end boundary stops the
/// scan and every other line is emitted.
pub open spec fn spec_scan_step(
    mode: ExpectedFormat,
    start: Datetime,
    end: Datetime,
    emitting: bool,
    ts: Datetime,
) -> (bool, bool) {
    if emitting {
        if boundary_cmp(mode, ts, end) > 0 {
            (false, true)
        } else {
            (true, false)
        }
    } else {
        if boundary_cmp(mode, ts, start) >= 0 {
            (true, false)
        } else {
            (false, false)
        }
    }
}

/// The indices of the lines the state machine emits from position `i`
/// onward, starting in the given state, or the first parse failure.
pub open spec fn spec_scan_from(
    mode: ExpectedFormat,
    start: Datetime,
    end: Datetime,
    lines: Seq<Seq<char>>,
    i: int,
    emitting: bool,
) -> Result<Seq<int>, ScanError>
    decreases lines.len() - i,
{
    if i < 0 || i >= lines.len() {
        Ok(Seq::empty())
    } else {
        match spec_line_value(mode, lines[i]) {
            Err(e) => Err(ScanError::LineParse { index: i as usize, error: e }),
            Ok(ts) => {
                let step = spec_scan_step(mode, start, end, emitting, ts);
                if step.1 {
                    Ok(Seq::empty())
                } else {
                    match spec_scan_from(mode, start, end, lines, i + 1, emitting || step.0) {
                        Err(e) => Err(e),
                        Ok(rest) => Ok(
                            if step.0 {
                                seq![i] + rest
                            } else {
                                rest
                            },
                        ),
                    }
                }
            },
        }
    }
}

/// What a whole scan yields on a sequence of line contents: the
/// indices of the emitted lines and the missing-start warning flag, or
/// the error that aborted it. An empty input emits nothing and is not
/// an error. The first line decides feasibility (past the end boundary
/// aborts) and the warning (strictly after the start boundary); the
/// state machine then runs from the first line in the searching state.
pub open spec fn spec_scan(
    mode: ExpectedFormat,
    start: Datetime,
    end: Datetime,
    lines: Seq<Seq<char>>,
) -> Result<(Seq<int>, bool), ScanError> {
    if lines.len() == 0 {
        Ok((Seq::empty(), false))
    } else {
        match spec_line_value(mode, lines[0]) {
            Err(e) => Err(ScanError::LineParse { index: 0, error: e }),
            Ok(ts0) => {
                if boundary_cmp(mode, ts0, end) > 0 {
                    Err(ScanError::StartsAfterWindow)
                } else {
                    match spec_scan_from(mode, start, end, lines, 0, false) {
                        Err(e) => Err(e),
                        Ok(ixs) => Ok((ixs, boundary_cmp(mode, ts0, start) > 0)),
                    }
                }
            },
        }
    }
}

/// The character sequences of a sequence of strings.
pub open spec fn views_of(lines: Seq<String>) -> Seq<Seq<char>> {
    Seq::new(lines.len(), |i: int| lines[i]@)
}

/// The contents of the lines at the given indices, in order.
pub open spec fn emitted_lines(lines: Seq<Seq<char>>, ixs: Seq<int>) -> Seq<Seq<char>> {
    ixs.map(|_j: int, i: int| lines[i])
}

/// Compares two timestamps under the given search mode.
pub fn boundary_compare(mode: ExpectedFormat, a: &Datetime, b: &Datetime) -> (r: i8)
    ensures
        r as int == boundary_cmp(mode, *a, *b),
{
    match mode {
        ExpectedFormat::TimeOnly => a.get_time().compare_with(b.get_time()),
        ExpectedFormat::DateAndTime => a.compare_with(b),
    }
}

/// Parses the timestamp prefix a line carries under the given search
/// mode.
pub fn line_value(mode: ExpectedFormat, line: &str) -> (r: Result<Datetime, ParseError>)
    ensures
        r == spec_line_value(mode, line@),
{
    match mode {
        ExpectedFormat::DateAndTime => parse_datetime(line),
        ExpectedFormat::TimeOnly => match parse_time(line) {
            Ok(time) => Ok(
                Datetime {
                    date: Date { year: 0, month: 0, day: 0 },
                    time,
                    empty_date: true,
                    empty_time: false,
                },
            ),
            Err(e) => Err(e),
        },
    }
}

/// One decision of the state machine: whether the line with timestamp
/// `ts` is emitted, and whether the scan stops before it.
pub fn scan_step(
    mode: ExpectedFormat,
    start: &Datetime,
    end: &Datetime,
    emitting: bool,
    ts: &Datetime,
) -> (r: (bool, bool))
    ensures
        r == spec_scan_step(mode, *start, *end, emitting, *ts),
{
    if emitting {
        if boundary_compare(mode, ts, end) > 0 {
            (false, true)
        } else {
            (true, false)
        }
    } else {
        if boundary_compare(mode, ts, start) >= 0 {
            (true, false)
        } else {
            (false, false)
        }
    }
}

/// Runs the whole scan over a sequence of lines: emits, verbatim and
/// in input order, exactly the lines the state machine selects, and
/// reports the missing-start warning, or aborts with the error the
/// model assigns.
pub fn scan_lines(
    lines: &Vec<String>,
    mode: ExpectedFormat,
    start: &Datetime,
    end: &Datetime,
) -> (r: Result<ScanOutcome, ScanError>)
    ensures
        (match r {
            Ok(out) => spec_scan(mode, *start, *end, views_of(lines@)) matches Ok(p)
                && views_of(out.emitted@) == emitted_lines(views_of(lines@), p.0) && out.warning
                == p.1,
            Err(e) => spec_scan(mode, *start, *end, views_of(lines@)) == Err::<
                (Seq<int>, bool),
                ScanError,
            >(e),
        }),
{
    let ghost lv = views_of(lines@);
    if lines.len() == 0 {
        let out = ScanOutcome { emitted: Vec::new(), warning: false };
        proof {
            assert(views_of(out.emitted@) =~= emitted_lines(lv, Seq::<int>::empty()));
        }
        return Ok(out);
    }
    let first_ts = match line_value(mode, lines[0].as_str()) {
        Ok(ts) => ts,
        Err(e) => {
            return Err(ScanError::LineParse { index: 0, error: e });
        },
    };
    if boundary_compare(mode, &first_ts, end) > 0 {
        return Err(ScanError::StartsAfterWindow);
    }
    let warning = boundary_compare(mode, &first_ts, start) > 0;

    let mut emitted: Vec<String> = Vec::new();
    let mut emitting = false;
    let mut stopped = false;
    let mut i: usize = 0;
    let ghost mut done: Seq<int> = Seq::empty();
    proof {
        assert(views_of(emitted@) =~= emitted_lines(lv, done));
    }
    while i < lines.len() && !stopped
        invariant
            i <= lines.len(),
            lines@.len() <= usize::MAX,
            lv == views_of(lines@),
            lv.len() == lines@.len(),
            views_of(emitted@) == emitted_lines(lv, done),
            (match spec_scan_from(mode, *start, *end, lv, i as int, emitting) {
                Ok(rest) => spec_scan_from(mode, *start, *end, lv, 0, false) == Ok::<
                    Seq<int>,
                    ScanError,
                >(done + rest),
                Err(e) => spec_scan_from(mode, *start, *end, lv, 0, false) == Err::<
                    Seq<int>,
                    ScanError,
                >(e),
            }),
            stopped ==> spec_scan_from(mode, *start, *end, lv, i as int, emitting) == Ok::<
                Seq<int>,
                ScanError,
            >(Seq::empty()),
            lines@.len() > 0,
            spec_line_value(mode, lv[0]) == Ok::<Datetime, ParseError>(first_ts),
            boundary_cmp(mode, first_ts, *end) <= 0,
            warning == (boundary_cmp(mode, first_ts, *start) > 0),
        decreases lines.len() - i + (if stopped {
            0int
        } else {
            1int
        }),
    {
        let ts = match line_value(mode, lines[i].as_str()) {
            Ok(ts) => ts,
            Err(e) => {
                proof {
                    assert(lv[i as int] == lines@[i as int]@);
                    assert(spec_scan_from(mode, *start, *end, lv, i as int, emitting)
                        == Err::<Seq<int>, ScanError>(
                        ScanError::LineParse { index: i, error: e },
                    ));
                }
                return Err(ScanError::LineParse { index: i, error: e });
            },
        };
        let step = scan_step(mode, start, end, emitting, &ts);
        proof {
            assert(lv[i as int] == lines@[i as int]@);
        }
        if step.1 {
            stopped = true;
            proof {
                assert(spec_scan_from(mode, *start, *end, lv, i as int, emitting) == Ok::<
                    Seq<int>,
                    ScanError,
                >(Seq::empty()));
            }
        } else {
            let ghost prev_done = done;
            let ghost prev_emitting = emitting;
            if step.0 {
                let ghost prev_emitted = emitted@;
                emitted.push(lines[i].clone());
                emitting = true;
                proof {
                    done = done + seq![i as int];
                    assert(views_of(prev_emitted) == emitted_lines(lv, prev_done));
                    assert(views_of(prev_emitted).len() == prev_emitted.len());
                    assert(emitted_lines(lv, prev_done).len() == prev_done.len());
                    assert(prev_emitted.len() == prev_done.len());
                    assert(done == prev_done + seq![i as int]);
                    assert(done.len() == prev_done.len() + 1);
                    assert(emitted@.len() == prev_emitted.len() + 1);
                    assert forall|j: int| 0 <= j < emitted@.len() implies views_of(emitted@)[j]
                        == emitted_lines(lv, done)[j] by {
                        if j < prev_done.len() {
                            assert(emitted@[j] == prev_emitted[j]);
                            assert(views_of(prev_emitted)[j] == emitted_lines(lv, prev_done)[j]);
                        } else {
                            assert(done[j] == i as int);
                        }
                    }
                    assert(views_of(emitted@) =~= emitted_lines(lv, done));
                }
            }
            proof {
                let next = spec_scan_from(mode, *start, *end, lv, i + 1, emitting);
                assert(spec_scan_from(mode, *start, *end, lv, i as int, prev_emitting) == (match next {
                    Err(e) => Err::<Seq<int>, ScanError>(e),
                    Ok(rest) => Ok::<Seq<int>, ScanError>(
                        if step.0 {
                            seq![i as int] + rest
                        } else {
                            rest
                        },
                    ),
                }));
                if next is Ok {
                    assert(prev_done + (if step.0 {
                        seq![i as int] + next->Ok_0
                    } else {
                        next->Ok_0
                    }) =~= done + next->Ok_0);
                }
            }
            i = i + 1;
        }
    }
    proof {
        if !stopped {
            assert(spec_scan_from(mode, *start, *end, lv, i as int, emitting) == Ok::<
                Seq<int>,
                ScanError,
            >(Seq::empty()));
        }
        assert(done + Seq::<int>::empty() =~= done);
        assert(spec_scan_from(mode, *start, *end, lv, 0, false) == Ok::<Seq<int>, ScanError>(done));
    }
    Ok(ScanOutcome { emitted, warning })
}

/// From any position and in either state, if every remaining line
/// parses and lies in the window, every remaining line is emitted.
proof fn lemma_scan_from_all_in_range(
    mode: ExpectedFormat,
    start: Datetime,
    end: Datetime,
    lines: Seq<Seq<char>>,
    i: int,
    emitting: bool,
)
    requires
        0 <= i <= lines.len(),
        forall|j: int|
            i <= j < lines.len() ==> (#[trigger] spec_line_value(mode, lines[j]) matches Ok(ts)
                && boundary_cmp(mode, ts, start) >= 0 && boundary_cmp(mode, ts, end) <= 0),
    ensures
        spec_scan_from(mode, start, end, lines, i, emitting) == Ok::<Seq<int>, ScanError>(
            Seq::new((lines.len() - i) as nat, |k: int| i + k),
        ),
    decreases lines.len() - i,
{
    if i == lines.len() {
        assert(Seq::new(0, |k: int| i + k) =~= Seq::<int>::empty());
    } else {
        let ts = spec_line_value(mode, lines[i])->Ok_0;
        lemma_scan_from_all_in_range(mode, start, end, lines, i + 1, true);
        assert(seq![i] + Seq::new((lines.len() - i - 1) as nat, |k: int| i + 1 + k) =~= Seq::new(
            (lines.len() - i) as nat,
            |k: int| i + k,
        ));
    }
}

/// If the file's lines all parse and all lie within [start, end], the
/// scan succeeds and emits every line, in order, none dropped.
pub proof fn lemma_all_in_range_all_emitted(
    mode: ExpectedFormat,
    start: Datetime,
    end: Datetime,
    lines: Seq<Seq<char>>,
)
    requires
        forall|j: int|
            0 <= j < lines.len() ==> (#[trigger] spec_line_value(mode, lines[j]) matches Ok(ts)
                && boundary_cmp(mode, ts, start) >= 0 && boundary_cmp(mode, ts, end) <= 0),
    ensures
        spec_scan(mode, start, end, lines) matches Ok(p) && p.0 == Seq::new(
            lines.len(),
            |k: int| k,
        ),
{
    if lines.len() == 0 {
        assert(spec_scan(mode, start, end, lines) matches Ok(p) && p.0 =~= Seq::new(
            0,
            |k: int| k,
        ));
    } else {
        lemma_scan_from_all_in_range(mode, start, end, lines, 0, false);
        assert(Seq::new((lines.len() - 0) as nat, |k: int| 0 + k) =~= Seq::new(
            lines.len(),
            |k: int| k,
        ));
    }
}

/// If the file's first line parses to a timestamp past the end
/// boundary, the scan aborts as range-infeasible and emits nothing.
pub proof fn lemma_first_after_end_aborts(
    mode: ExpectedFormat,
    start: Datetime,
    end: Datetime,
    lines: Seq<Seq<char>>,
)
    requires
        lines.len() > 0,
        spec_line_value(mode, lines[0]) matches Ok(ts) && boundary_cmp(mode, ts, end) > 0,
    ensures
        spec_scan(mode, start, end, lines) == Err::<(Seq<int>, bool), ScanError>(
            ScanError::StartsAfterWindow,
        ),
{
}

/// From any position and in either state, if every remaining line
/// parses, the scan does not abort.
proof fn lemma_scan_from_ok(
    mode: ExpectedFormat,
    start: Datetime,
    end: Datetime,
    lines: Seq<Seq<char>>,
    i: int,
    emitting: bool,
)
    requires
        0 <= i <= lines.len(),
        forall|j: int| i <= j < lines.len() ==> #[trigger] spec_line_value(mode, lines[j]) is Ok,
    ensures
        spec_scan_from(mode, start, end, lines, i, emitting) is Ok,
    decreases lines.len() - i,
{
    if i < lines.len() {
        let ts = spec_line_value(mode, lines[i])->Ok_0;
        let step = spec_scan_step(mode, start, end, emitting, ts);
        if !step.1 {
            lemma_scan_from_ok(mode, start, end, lines, i + 1, emitting || step.0);
        }
    }
}

/// If the file's first line parses to a timestamp strictly after the
/// start boundary but not past the end boundary, and every line
/// parses, the scan succeeds, raises the missing-start warning, and
/// still emits that first line.
pub proof fn lemma_first_inside_window_warns(
    mode: ExpectedFormat,
    start: Datetime,
    end: Datetime,
    lines: Seq<Seq<char>>,
)
    requires
        lines.len() > 0,
        forall|j: int| 0 <= j < lines.len() ==> #[trigger] spec_line_value(mode, lines[j]) is Ok,
        boundary_cmp(mode, spec_line_value(mode, lines[0])->Ok_0, start) > 0,
        boundary_cmp(mode, spec_line_value(mode, lines[0])->Ok_0, end) <= 0,
    ensures
        spec_scan(mode, start, end, lines) matches Ok(p) && p.1 == true && p.0.len() > 0 && p.0[0]
            == 0,
{
    let ts0 = spec_line_value(mode, lines[0])->Ok_0;
    lemma_scan_from_ok(mode, start, end, lines, 1, true);
    let rest = spec_scan_from(mode, start, end, lines, 1, true)->Ok_0;
    assert(spec_scan_from(mode, start, end, lines, 0, false) == Ok::<Seq<int>, ScanError>(
        seq![0] + rest,
    ));
    assert((seq![0int] + rest)[0] == 0);
}

/// Once the scan is emitting, a line whose timestamp is past the end
/// boundary stops it for good: neither that line nor any later one is
/// emitted, even if later timestamps would re-enter the window.
pub proof fn lemma_emitting_stops_at_end(
    mode: ExpectedFormat,
    start: Datetime,
    end: Datetime,
    lines: Seq<Seq<char>>,
    i: int,
)
    requires
        0 <= i < lines.len(),
        spec_line_value(mode, lines[i]) matches Ok(ts) && boundary_cmp(mode, ts, end) > 0,
    ensures
        spec_scan_from(mode, start, end, lines, i, true) == Ok::<Seq<int>, ScanError>(
            Seq::empty(),
        ),
{
}

/// The scan is a function of the boundaries and the line contents
/// alone: two runs over the same immutable file with the same
/// boundaries yield identical output.
pub proof fn lemma_scan_deterministic(
    mode: ExpectedFormat,
    start: Datetime,
    end: Datetime,
    lines1: Seq<Seq<char>>,
    lines2: Seq<Seq<char>>,
)
    requires
        lines1 == lines2,
    ensures
        spec_scan(mode, start, end, lines1) == spec_scan(mode, start, end, lines2),
{
}

} // verus!
