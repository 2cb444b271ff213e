//! Time-window specifications for bounded Kafka reads.
//!
//! Maps the user-facing `--last / --since / --from / --to / --offset` flags
//! into a small enum that the consumer resolves into per-partition offsets.

use vstd::prelude::*;

use crate::error::Error;
use crate::time::{
    duration_in_range, humantime_duration, parse_duration_guarded, parse_rfc3339_instant,
    rfc3339_instant, since_start, since_start_exec, DurationParse, Span, Timestamp,
};

verus! {

/// Bounded read window.
#[derive(Debug, Clone, Copy, PartialEq, Eq, Structural)]
pub enum TimeWindow {
    /// `[now - duration, now]`, resolved when the consumer connects.
    Last(Span),
    /// Absolute time range. `to: None` means "read until each partition's
    /// high watermark".
    Range { from: Timestamp, to: Option<Timestamp> },
    /// Read from earliest or latest, capped at `limit` messages in total.
    Offset { start: OffsetStart, limit: u64 },
}

/// Where an offset-based window starts.
#[derive(Debug, Clone, Copy, PartialEq, Eq, Structural)]
pub enum OffsetStart {
    Earliest,
    Latest,
}

/// Seconds of the window applied when no window flag is given (`--last 10m`).
pub const DEFAULT_LAST_SECS: u64 = 600;

impl TimeWindow {
    /// The window applied when no flag is given: the last ten minutes.
    pub fn default_last() -> (r: TimeWindow)
        ensures
            r == TimeWindow::Last(Span { secs: DEFAULT_LAST_SECS, nanos: 0 }),
    {
        TimeWindow::Last(Span::from_secs(DEFAULT_LAST_SECS))
    }
}

/// Mirror of the CLI window flags, decoupled from the argument parser.
///
/// Each `&str` is the raw user input; resolution happens in
/// [`WindowParse::resolve`].
#[derive(Debug, Default, Clone, Copy)]
pub struct WindowParse<'a> {
    pub last: Option<&'a str>,
    pub since: Option<&'a str>,
    pub from: Option<&'a str>,
    pub to: Option<&'a str>,
    pub offset: Option<OffsetStart>,
    pub limit: Option<u64>,
}

/// What resolving a [`WindowParse`] comes to, with the offending input where
/// there is one.
pub enum WindowOutcome {
    Window(TimeWindow),
    Conflict,
    BadDuration(Seq<char>),
    BadTimestamp(Seq<char>),
    OffsetWithoutLimit,
    ToWithoutFrom,
    ToBeforeFrom,
    SinceOutOfRange(Seq<char>),
    DurationTooLarge(Seq<char>),
}

/// Number of lower-bound groups (`--last`, `--since`, `--from`, `--offset`) set.
pub open spec fn lower_groups(w: WindowParse) -> int {
    (if w.last is Some { 1int } else { 0 }) + (if w.since is Some { 1int } else { 0 }) + (
    if w.from is Some { 1int } else { 0 }) + (if w.offset is Some { 1int } else { 0 })
}

/// The range that starts at `from` and ends at the `--to` flag, if any.
pub open spec fn range_outcome(from: Timestamp, to: Option<&str>) -> WindowOutcome {
    match to {
        None => WindowOutcome::Window(TimeWindow::Range { from, to: None }),
        Some(t) => match rfc3339_instant(t@) {
            None => WindowOutcome::BadTimestamp(t@),
            Some((secs, nanos)) => {
                let upper = Timestamp { secs, nanos };
                if upper.spec_le(from) {
                    WindowOutcome::ToBeforeFrom
                } else {
                    WindowOutcome::Window(TimeWindow::Range { from, to: Some(upper) })
                }
            },
        },
    }
}

/// How the flags resolve, with `now` the clock reading used by `--since <duration>`.
pub open spec fn resolve_spec(w: WindowParse, now: Timestamp) -> WindowOutcome {
    if lower_groups(w) > 1 {
        WindowOutcome::Conflict
    } else if let Some(s) = w.last {
        if w.to is Some {
            WindowOutcome::Conflict
        } else if !duration_in_range(s@) {
            WindowOutcome::DurationTooLarge(s@)
        } else {
            match humantime_duration(s@) {
                Some((secs, nanos)) => WindowOutcome::Window(
                    TimeWindow::Last(Span { secs, nanos }),
                ),
                None => WindowOutcome::BadDuration(s@),
            }
        }
    } else if let Some(s) = w.since {
        if !duration_in_range(s@) {
            match rfc3339_instant(s@) {
                Some((secs, nanos)) => range_outcome(Timestamp { secs, nanos }, w.to),
                None => WindowOutcome::DurationTooLarge(s@),
            }
        } else {
            match humantime_duration(s@) {
                Some((secs, nanos)) => match since_start(now, Span { secs, nanos }) {
                Some(from) => range_outcome(from, w.to),
                    None => WindowOutcome::SinceOutOfRange(s@),
                },
                None => match rfc3339_instant(s@) {
                    Some((secs, nanos)) => range_outcome(Timestamp { secs, nanos }, w.to),
                    None => WindowOutcome::BadTimestamp(s@),
                },
            }
        }
    } else if let Some(s) = w.from {
        match rfc3339_instant(s@) {
            Some((secs, nanos)) => range_outcome(Timestamp { secs, nanos }, w.to),
            None => WindowOutcome::BadTimestamp(s@),
        }
    } else if let Some(start) = w.offset {
        match w.limit {
            Some(limit) => WindowOutcome::Window(TimeWindow::Offset { start, limit }),
            None => WindowOutcome::OffsetWithoutLimit,
        }
    } else if w.to is Some {
        WindowOutcome::ToWithoutFrom
    } else {
        WindowOutcome::Window(TimeWindow::Last(Span { secs: DEFAULT_LAST_SECS, nanos: 0 }))
    }
}

/// `r` is the result that the outcome `o` calls for.
pub open spec fn outcome_holds(r: Result<TimeWindow, Error>, o: WindowOutcome) -> bool {
    match o {
        WindowOutcome::Window(w) => r == Ok::<TimeWindow, Error>(w),
        WindowOutcome::Conflict => r matches Err(Error::WindowConflict),
        WindowOutcome::BadDuration(s) => r matches Err(Error::WindowDuration(m, _)) && m@ == s,
        WindowOutcome::BadTimestamp(s) => r matches Err(Error::WindowTimestamp(m, _)) && m@ == s,
        WindowOutcome::OffsetWithoutLimit => r matches Err(Error::WindowOffsetWithoutLimit),
        WindowOutcome::ToWithoutFrom => r matches Err(Error::WindowToWithoutFrom),
        WindowOutcome::ToBeforeFrom => r matches Err(Error::WindowToBeforeFrom),
        WindowOutcome::SinceOutOfRange(s) => r matches Err(Error::WindowSinceOutOfRange(m)) && m@
            == s,
        WindowOutcome::DurationTooLarge(s) => r matches Err(Error::DurationTooLarge(m)) && m@ == s,
    }
}

impl<'a> WindowParse<'a> {
    /// Resolves the flags into a window, reading the clock for
    /// `--since <duration>`.
    pub fn resolve(self) -> (r: Result<TimeWindow, Error>)
        ensures
            exists|now: Timestamp| now.is_clock_reading() && outcome_holds(r, resolve_spec(self, now)),
            match (self.last, self.since, self.from, self.offset, self.limit) {
                (None, None, None, Some(st), Some(n)) => r == Ok::<TimeWindow, Error>(
                    TimeWindow::Offset { start: st, limit: n },
                ),
                (None, None, None, Some(_), None) => r matches Err(
                    Error::WindowOffsetWithoutLimit,
                ),
                _ => true,
            },
            match r {
                Ok(TimeWindow::Offset { start, limit }) => self.offset == Some(start) && self.limit
                    == Some(limit),
                _ => true,
            },
    {
        let now = Timestamp::now();
        self.resolve_at(now)
    }

    /// Resolves the flags into a window, with `now` the instant from which
    /// `--since <duration>` counts back.
    pub fn resolve_at(self, now: Timestamp) -> (r: Result<TimeWindow, Error>)
        requires
            now.is_clock_reading(),
        ensures
            outcome_holds(r, resolve_spec(self, now)),
            match (self.last, self.since, self.from, self.offset, self.limit) {
                (None, None, None, Some(st), Some(n)) => r == Ok::<TimeWindow, Error>(
                    TimeWindow::Offset { start: st, limit: n },
                ),
                (None, None, None, Some(_), None) => r matches Err(
                    Error::WindowOffsetWithoutLimit,
                ),
                _ => true,
            },
            match r {
                Ok(TimeWindow::Offset { start, limit }) => self.offset == Some(start) && self.limit
                    == Some(limit),
                _ => true,
            },
    {
        let mut lower_count: u8 = 0;
        if self.last.is_some() {
            lower_count = lower_count + 1;
        }
        if self.since.is_some() {
            lower_count = lower_count + 1;
        }
        if self.from.is_some() {
            lower_count = lower_count + 1;
        }
        if self.offset.is_some() {
            lower_count = lower_count + 1;
        }
        assert(lower_count == lower_groups(self));
        if lower_count > 1 {
            return Err(Error::WindowConflict);
        }
        // --last <duration>

        if let Some(s) = self.last {
            if self.to.is_some() {
                return Err(Error::WindowConflict);
            }
            return match parse_duration_guarded(s) {
                DurationParse::Parsed(d) => Ok(TimeWindow::Last(d)),
                DurationParse::Invalid(e) => Err(Error::WindowDuration(s.to_owned(), e)),
                DurationParse::TooLarge => Err(Error::DurationTooLarge(s.to_owned())),
            };
        }
        // --since <duration|rfc3339>

        if let Some(s) = self.since {
            let from = match parse_duration_guarded(s) {
                DurationParse::Parsed(d) => match since_start_exec(now, d) {
                    Some(t) => t,
                    None => {
                        return Err(Error::WindowSinceOutOfRange(s.to_owned()));
                    },
                },
                DurationParse::Invalid(_) => match parse_rfc3339_instant(s) {
                    Ok(t) => t,
                    Err(e) => {
                        return Err(Error::WindowTimestamp(s.to_owned(), e));
                    },
                },
                DurationParse::TooLarge => match parse_rfc3339_instant(s) {
                    Ok(t) => t,
                    Err(_) => {
                        return Err(Error::DurationTooLarge(s.to_owned()));
                    },
                },
            };
            return range_to(from, self.to);
        }
        // --from <rfc3339> [--to <rfc3339>]

        if let Some(s) = self.from {
            let from = match parse_rfc3339_instant(s) {
                Ok(t) => t,
                Err(e) => {
                    return Err(Error::WindowTimestamp(s.to_owned(), e));
                },
            };
            return range_to(from, self.to);
        }
        // --offset earliest|latest --limit N

        if let Some(start) = self.offset {
            return match self.limit {
                Some(limit) => Ok(TimeWindow::Offset { start, limit }),
                None => Err(Error::WindowOffsetWithoutLimit),
            };
        }
        // --to alone

        if self.to.is_some() {
            return Err(Error::WindowToWithoutFrom);
        }
        Ok(TimeWindow::default_last())
    }
}

/// The range from `from` up to the parsed `--to`, checked to be non-empty.
fn range_to(from: Timestamp, to: Option<&str>) -> (r: Result<TimeWindow, Error>)
    ensures
        outcome_holds(r, range_outcome(from, to)),
{
    match to {
        None => Ok(TimeWindow::Range { from, to: None }),
        Some(t) => {
            let upper = match parse_rfc3339_instant(t) {
                Ok(u) => u,
                Err(e) => {
                    return Err(Error::WindowTimestamp(t.to_owned(), e));
                },
            };
            if upper.le(&from) {
                Err(Error::WindowToBeforeFrom)
            } else {
                Ok(TimeWindow::Range { from, to: Some(upper) })
            }
        },
    }
}


/// What a consume resolves a window into: millisecond bounds for a time
/// lookup, or an offset-based read.
#[derive(Debug, Clone, Copy, PartialEq, Eq, Structural)]
pub enum ReadBounds {
    Time { from_ms: i64, to_ms: Option<i64> },
    Offsets { start: OffsetStart, limit: u64 },
}

/// The instants of a range lie within chrono's range.
pub open spec fn window_wf(w: TimeWindow) -> bool {
    match w {
        TimeWindow::Range { from, to } => from.wf() && match to {
            Some(t) => t.wf(),
            None => true,
        },
        _ => true,
    }
}

/// `Duration::as_millis() as i64` of a span: the milliseconds, truncated to 64 bits.
pub open spec fn span_millis_i64(d: Span) -> i64 {
    (d.secs * 1000 + d.nanos / 1_000_000) as u128 as i64
}

/// The bounds of `w` with `now` the instant `Last` counts back from.
pub open spec fn bounds_spec(w: TimeWindow, now: Timestamp) -> ReadBounds {
    match w {
        TimeWindow::Last(d) => ReadBounds::Time {
            from_ms: (now.spec_millis() - span_millis_i64(d)) as i64,
            to_ms: None,
        },
        TimeWindow::Range { from, to } => ReadBounds::Time {
            from_ms: from.spec_millis() as i64,
            to_ms: match to {
                Some(t) => Some(t.spec_millis() as i64),
                None => None,
            },
        },
        TimeWindow::Offset { start, limit } => ReadBounds::Offsets { start, limit },
    }
}

impl TimeWindow {
    /// Millisecond bounds for a time-based read (a `Last` window ends at
    /// the high watermark and starts `d` before `now`), or the offset-based
    /// read.
    pub fn read_bounds(&self, now: Timestamp) -> (r: ReadBounds)
        requires
            window_wf(*self),
            now.wf(),
            *self matches TimeWindow::Last(d) ==> i64::MIN <= now.spec_millis() - span_millis_i64(d)
                <= i64::MAX,
        ensures
            r == bounds_spec(*self, now),
    {
        match self {
            TimeWindow::Last(d) => {
                let back: i64 = d.as_millis() as i64;
                ReadBounds::Time { from_ms: now.timestamp_millis() - back, to_ms: None }
            },
            TimeWindow::Range { from, to } => ReadBounds::Time {
                from_ms: from.timestamp_millis(),
                to_ms: match to {
                    Some(t) => Some(t.timestamp_millis()),
                    None => None,
                },
            },
            TimeWindow::Offset { start, limit } => ReadBounds::Offsets {
                start: *start,
                limit: *limit,
            },
        }
    }
}


/// The lower-bound groups exclude each other: giving more than one is a
/// conflict, whatever the values.
pub proof fn lemma_window_groups_exclusive(w: WindowParse, now: Timestamp)
    requires
        lower_groups(w) > 1,
    ensures
        resolve_spec(w, now) is Conflict,
{
}

/// With no flag at all the window is the last ten minutes.
pub proof fn lemma_default_window(w: WindowParse, now: Timestamp)
    requires
        w.last is None,
        w.since is None,
        w.from is None,
        w.to is None,
        w.offset is None,
    ensures
        resolve_spec(w, now) == WindowOutcome::Window(
            TimeWindow::Last(Span { secs: DEFAULT_LAST_SECS, nanos: 0 }),
        ),
{
}

/// A resolved range with an upper bound is never empty: `from < to`.
pub proof fn lemma_resolved_range_nonempty(w: WindowParse, now: Timestamp)
    ensures
        resolve_spec(w, now) matches WindowOutcome::Window(
            TimeWindow::Range { from, to: Some(t) },
        ) ==> !t.spec_le(from),
{
}

/// `--to` never stands alone: without a lower bound it is an error.
pub proof fn lemma_to_needs_lower_bound(w: WindowParse, now: Timestamp)
    requires
        w.to is Some,
        lower_groups(w) == 0,
    ensures
        resolve_spec(w, now) is ToWithoutFrom,
{
}

/// `--offset s --limit n` alone is the offset window that starts where the
/// flag says and holds `n` messages; an offset window is only ever made of
/// those two flags.
pub proof fn lemma_offset_window_keeps_flags(w: WindowParse, now: Timestamp)
    ensures
        match (w.last, w.since, w.from, w.offset, w.limit) {
            (None, None, None, Some(st), Some(n)) => resolve_spec(w, now) == WindowOutcome::Window(
                TimeWindow::Offset { start: st, limit: n },
            ),
            _ => true,
        },
        match resolve_spec(w, now) {
            WindowOutcome::Window(TimeWindow::Offset { start, limit }) => w.offset == Some(start)
                && w.limit == Some(limit),
            _ => true,
        },
{
}

} // verus!
