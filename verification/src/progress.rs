//! Progress reporting during a consume.
//!
//! Terminal and periodic reporters write to stderr and live with the
//! command-line program; the library defines what a reporter is.

use vstd::prelude::*;

use std::time::Duration;

use crate::time::Span;

verus! {

/// Receives the counters of a running consume.
pub trait Reporter {
    /// Called after each consumed message; reporters may rate-limit internally.
    fn record(&mut self, messages: u64, bytes: u64);

    /// Called once at the end.
    fn finish(&mut self, total_messages: u64, total_bytes: u64, elapsed: Duration);
}

/// A reporter that reports nothing.
#[derive(Debug, Clone, Copy, Default)]
pub struct NoopReporter;

impl Reporter for NoopReporter {
    fn record(&mut self, _messages: u64, _bytes: u64) {
    }

    fn finish(&mut self, _total_messages: u64, _total_bytes: u64, _elapsed: Duration) {
    }
}

/// Which reporter a consume gets.
#[derive(Debug, Clone, Copy, PartialEq, Eq, Structural)]
pub enum ReporterKind {
    /// Progress is off: nothing is reported.
    Silent,
    /// A spinner line on a terminal, redrawn in place.
    Spinner,
    /// A line every interval, for logs and pipes.
    Periodic,
}

/// Picks the reporter: none when progress is off, a spinner when stderr is
/// a terminal, periodic lines otherwise.
pub fn reporter_kind(enabled: bool, stderr_is_tty: bool) -> (r: ReporterKind)
    ensures
        !enabled ==> r == ReporterKind::Silent,
        enabled && stderr_is_tty ==> r == ReporterKind::Spinner,
        enabled && !stderr_is_tty ==> r == ReporterKind::Periodic,
{
    if !enabled {
        ReporterKind::Silent
    } else if stderr_is_tty {
        ReporterKind::Spinner
    } else {
        ReporterKind::Periodic
    }
}

/// The shortest time between two progress lines: the configured interval,
/// but never under one second.
pub open spec fn effective_interval(interval: Span) -> Span {
    if interval.spec_le(Span { secs: 1, nanos: 0 }) {
        Span { secs: 1, nanos: 0 }
    } else {
        interval
    }
}

/// The throttle of a periodic reporter: its interval, and when it last
/// printed, both counted from the reporter's start.
#[derive(Debug, Clone, Copy)]
pub struct ProgressClock {
    pub interval: Span,
    pub last_emit: Span,
}

impl ProgressClock {
    /// A throttle that counts its first interval from the start.
    pub fn new(interval: Span) -> (r: ProgressClock)
        ensures
            r.interval == interval,
            r.last_emit == (Span { secs: 0, nanos: 0 }),
    {
        ProgressClock { interval, last_emit: Span { secs: 0, nanos: 0 } }
    }

    /// A message was recorded `now` after the start: whether a line is
    /// printed, which is when [`effective_interval`] has passed since the
    /// last one; printing moves the last line to `now`.
    pub fn record_at(&mut self, now: Span) -> (r: bool)
        requires
            old(self).last_emit.total_nanos() <= now.total_nanos(),
        ensures
            r == (now.total_nanos() - old(self).last_emit.total_nanos() >= effective_interval(
                old(self).interval,
            ).total_nanos()),
            final(self).interval == old(self).interval,
            r ==> final(self).last_emit == now,
            !r ==> final(self).last_emit == old(self).last_emit,
    {
        let ns: u128 = 1_000_000_000;
        let now_ns: u128 = now.secs as u128 * ns + now.nanos as u128;
        let last_ns: u128 = self.last_emit.secs as u128 * ns + self.last_emit.nanos as u128;
        let one = Span::from_secs(1);
        let wait = if self.interval.le(&one) {
            one
        } else {
            self.interval
        };
        let wait_ns: u128 = wait.secs as u128 * ns + wait.nanos as u128;
        if now_ns - last_ns >= wait_ns {
            self.last_emit = now;
            true
        } else {
            false
        }
    }
}

/// Two progress lines are at least a second apart: a line is printed only
/// once the effective interval, never under a second, has passed.
pub proof fn lemma_lines_a_second_apart(interval: Span, last: Span, now: Span)
    requires
        interval.wf(),
        now.total_nanos() - last.total_nanos() >= effective_interval(interval).total_nanos(),
    ensures
        now.total_nanos() - last.total_nanos() >= 1_000_000_000,
{
}

/// `1024` to the power `k`.
pub open spec fn kib_power(k: nat) -> nat
    decreases k,
{
    if k == 0 {
        1
    } else {
        1024 * kib_power((k - 1) as nat)
    }
}

/// The unit a byte count is shown in (0 = B, 1 = KB, 2 = MB, 3 = GB,
/// 4 = TB): the largest power of 1024 not above the count (bytes for a
/// count below 1024, zero included), at most TB.
pub open spec fn is_byte_unit(n: u64, k: nat) -> bool {
    &&& k <= 4
    &&& k > 0 ==> kib_power(k) <= n
    &&& k < 4 ==> n < kib_power(k + 1)
}

/// Picks the unit in which `n` bytes are shown.
pub fn byte_unit_index(n: u64) -> (r: usize)
    ensures
        is_byte_unit(n, r as nat),
{
    proof {
        reveal_with_fuel(kib_power, 6);
        assert(kib_power(1) == 1024);
        assert(kib_power(2) == 1048576);
        assert(kib_power(3) == 1073741824);
        assert(kib_power(4) == 1099511627776);
        assert(kib_power(5) == 1125899906842624);
    }
    if n < 1024 {
        0
    } else if n < 1048576 {
        1
    } else if n < 1073741824 {
        2
    } else if n < 1099511627776 {
        3
    } else {
        4
    }
}

/// The name of a byte unit: `B`, `KB`, `MB`, `GB` or `TB`.
pub open spec fn unit_name_spec(k: nat) -> Seq<char> {
    if k == 0 {
        "B"@
    } else if k == 1 {
        "KB"@
    } else if k == 2 {
        "MB"@
    } else if k == 3 {
        "GB"@
    } else {
        "TB"@
    }
}

/// The name of the unit that [`byte_unit_index`] picked.
pub fn byte_unit_name(k: usize) -> (r: &'static str)
    requires
        k <= 4,
    ensures
        r@ == unit_name_spec(k as nat),
{
    if k == 0 {
        "B"
    } else if k == 1 {
        "KB"
    } else if k == 2 {
        "MB"
    } else if k == 3 {
        "GB"
    } else {
        "TB"
    }
}

} // verus!
