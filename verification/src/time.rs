//! Plain-value models of durations and UTC instants, and the outside calls
//! that produce them (humantime's duration parser, chrono's RFC 3339 parser
//! and the system clock).

use vstd::prelude::*;

use crate::text::{chars_of, is_whitespace, unicode_whitespace};

verus! {

/// Nanoseconds in one second.
pub const NANOS_PER_SEC: u32 = 1_000_000_000;

/// First second (since the Unix epoch) that a `chrono::DateTime<Utc>` can
/// hold: `-262143-01-01T00:00:00Z`.
pub const MIN_UTC_SECS: i64 = -8334601315200;

/// Last second that a `chrono::DateTime<Utc>` can hold:
/// `+262142-12-31T23:59:59Z`.
pub const MAX_UTC_SECS: i64 = 8210266876799;

/// Whole seconds of the largest `chrono::TimeDelta` (`i64::MAX` milliseconds).
pub const MAX_DELTA_SECS: u64 = 9223372036854775;

/// Sub-second nanoseconds of the largest `chrono::TimeDelta`.
pub const MAX_DELTA_NANOS: u32 = 807_000_000;

/// A non-negative span of time, as `std::time::Duration` holds it.
#[derive(Debug, Clone, Copy, PartialEq, Eq, Structural, PartialOrd, Ord, Hash)]
pub struct Span {
    pub secs: u64,
    /// Always below one second.
    pub nanos: u32,
}

impl Span {
    /// The sub-second part is below one second.
    pub open spec fn wf(self) -> bool {
        self.nanos < NANOS_PER_SEC
    }

    /// The whole span in nanoseconds.
    pub open spec fn total_nanos(self) -> int {
        self.secs * 1_000_000_000 + self.nanos
    }

    /// `self <= other` in the order of `std::time::Duration`.
    pub open spec fn spec_le(self, other: Span) -> bool {
        self.secs < other.secs || (self.secs == other.secs && self.nanos <= other.nanos)
    }

    /// The span of `secs` whole seconds.
    pub fn from_secs(secs: u64) -> (r: Span)
        ensures
            r == (Span { secs, nanos: 0 }),
            r.wf(),
    {
        Span { secs, nanos: 0 }
    }

    /// Whole seconds.
    pub fn as_secs(&self) -> (r: u64)
        ensures
            r == self.secs,
    {
        self.secs
    }

    /// Sub-second nanoseconds.
    pub fn subsec_nanos(&self) -> (r: u32)
        ensures
            r == self.nanos,
    {
        self.nanos
    }

    /// Whole milliseconds, as `Duration::as_millis` counts them.
    pub fn as_millis(&self) -> (r: u128)
        ensures
            r == self.secs * 1000 + self.nanos / 1_000_000,
    {
        self.secs as u128 * 1000 + (self.nanos / 1_000_000) as u128
    }

    /// `self <= other`.
    pub fn le(&self, other: &Span) -> (r: bool)
        ensures
            r == self.spec_le(*other),
    {
        self.secs < other.secs || (self.secs == other.secs && self.nanos <= other.nanos)
    }
}

/// An instant in UTC, as `chrono::DateTime<Utc>` holds it: whole seconds
/// since the Unix epoch and the sub-second nanoseconds (which chrono lets
/// reach past one second during a leap second).
#[derive(Debug, Clone, Copy, PartialEq, Eq, Structural, PartialOrd, Ord, Hash)]
pub struct Timestamp {
    pub secs: i64,
    pub nanos: u32,
}

impl Timestamp {
    /// Within the range of `chrono::DateTime<Utc>`.
    pub open spec fn wf(self) -> bool {
        &&& MIN_UTC_SECS <= self.secs <= MAX_UTC_SECS
        &&& self.nanos < 2 * NANOS_PER_SEC
    }

    /// What the system clock can report: not before the epoch, within
    /// chrono's range, and not inside a leap second.
    pub open spec fn is_clock_reading(self) -> bool {
        &&& 0 <= self.secs <= MAX_UTC_SECS
        &&& self.nanos < NANOS_PER_SEC
    }

    /// Nanoseconds since the epoch (leap-second nanoseconds included).
    pub open spec fn total_nanos(self) -> int {
        self.secs * 1_000_000_000 + self.nanos
    }

    /// `self <= other` in chronological order.
    pub open spec fn spec_le(self, other: Timestamp) -> bool {
        self.secs < other.secs || (self.secs == other.secs && self.nanos <= other.nanos)
    }

    /// Milliseconds since the epoch, as `DateTime::timestamp_millis` counts them.
    pub open spec fn spec_millis(self) -> int {
        self.secs * 1000 + self.nanos / 1_000_000
    }

    /// Whole seconds since the epoch.
    pub fn timestamp(&self) -> (r: i64)
        ensures
            r == self.secs,
    {
        self.secs
    }

    /// Sub-second nanoseconds.
    pub fn timestamp_subsec_nanos(&self) -> (r: u32)
        ensures
            r == self.nanos,
    {
        self.nanos
    }

    /// Milliseconds since the epoch.
    pub fn timestamp_millis(&self) -> (r: i64)
        requires
            self.wf(),
        ensures
            r == self.spec_millis(),
    {
        self.secs * 1000 + (self.nanos / 1_000_000) as i64
    }

    /// `self <= other`.
    pub fn le(&self, other: &Timestamp) -> (r: bool)
        ensures
            r == self.spec_le(*other),
    {
        self.secs < other.secs || (self.secs == other.secs && self.nanos <= other.nanos)
    }

    /// The current time from the system clock.
    pub fn now() -> (r: Timestamp)
        ensures
            r.is_clock_reading(),
            r.wf(),
    {
        utc_now()
    }
}

/// `now - d`, as `Utc::now() - TimeDelta::from_std(d).unwrap_or(0)` computes
/// it: a span beyond the largest `TimeDelta` subtracts nothing, and `None`
/// marks a result outside chrono's range (where chrono panics).
pub open spec fn since_start(now: Timestamp, d: Span) -> Option<Timestamp> {
    let delta: int = if d.secs < MAX_DELTA_SECS || (d.secs == MAX_DELTA_SECS && d.nanos
        <= MAX_DELTA_NANOS) {
        d.total_nanos()
    } else {
        0
    };
    let t = now.total_nanos() - delta;
    if MIN_UTC_SECS * 1_000_000_000 <= t <= MAX_UTC_SECS * 1_000_000_000 + 999_999_999 {
        Some(Timestamp { secs: (t / 1_000_000_000) as i64, nanos: (t % 1_000_000_000) as u32 })
    } else {
        None
    }
}

/// Computes [`since_start`].
pub fn since_start_exec(now: Timestamp, d: Span) -> (r: Option<Timestamp>)
    requires
        now.is_clock_reading(),
        d.wf(),
    ensures
        r == since_start(now, d),
        r matches Some(t) ==> t.wf() && t.nanos < NANOS_PER_SEC,
{
    let ns: i128 = 1_000_000_000;
    let delta: i128 = if d.secs < MAX_DELTA_SECS || (d.secs == MAX_DELTA_SECS && d.nanos
        <= MAX_DELTA_NANOS) {
        d.secs as i128 * ns + d.nanos as i128
    } else {
        0
    };
    let t: i128 = now.secs as i128 * ns + now.nanos as i128 - delta;
    let lo: i128 = MIN_UTC_SECS as i128 * ns;
    let hi: i128 = MAX_UTC_SECS as i128 * ns + 999_999_999;
    if t < lo || t > hi {
        return None;
    }
    let shifted: i128 = t - lo;
    let q: i128 = shifted / ns;
    let rem: i128 = shifted % ns;
    proof {
        let ghost tt: int = t as int;
        let ghost sh: int = shifted as int;
        assert(sh == tt - MIN_UTC_SECS * 1_000_000_000);
        assert(0 <= sh);
        assert(q == sh / 1_000_000_000);
        assert(rem == sh % 1_000_000_000);
        lemma_shift_div(tt, MIN_UTC_SECS as int);
    }
    let secs: i64 = (q + MIN_UTC_SECS as i128) as i64;
    let nanos: u32 = rem as u32;
    Some(Timestamp { secs, nanos })
}

/// Shifting by a whole number of seconds moves the quotient and keeps the
/// remainder.
proof fn lemma_shift_div(t: int, k: int)
    ensures
        (t - k * 1_000_000_000) / 1_000_000_000 + k == t / 1_000_000_000,
        (t - k * 1_000_000_000) % 1_000_000_000 == t % 1_000_000_000,
{
    let n: int = 1_000_000_000;
    let x = t - k * n;
    let q = x / n;
    let r = x % n;
    vstd::arithmetic::div_mod::lemma_fundamental_div_mod(x, n);
    vstd::arithmetic::div_mod::lemma_mod_bound(x, n);
    assert(t == (q + k) * n + r) by (nonlinear_arith)
        requires
            x == t - k * n,
            x == n * q + r,
    ;
    vstd::arithmetic::div_mod::lemma_fundamental_div_mod_converse(t, n, q + k, r);
}


/// Name for what `humantime::parse_duration` makes of a string: its whole
/// seconds and sub-second nanoseconds, or `None` where it reports an error.
pub uninterp spec fn humantime_duration(s: Seq<char>) -> Option<(u64, u32)>;

/// Name for what `chrono::DateTime::parse_from_rfc3339` makes of a string,
/// taken as a UTC instant: `timestamp()` and `timestamp_subsec_nanos()`, or
/// `None` where it reports an error.
pub uninterp spec fn rfc3339_instant(s: Seq<char>) -> Option<(i64, u32)>;

/// The value of the digit run that `cur` holds, followed by `s`: each
/// maximal run of ASCII digits (whitespace inside a run is skipped, any other
/// character ends it) counts for its value plus one.
pub open spec fn weight_from(s: Seq<char>, cur: nat, in_run: bool) -> nat
    decreases s.len(),
{
    if s.len() == 0 {
        if in_run {
            cur + 1
        } else {
            0
        }
    } else if '0' <= s[0] && s[0] <= '9' {
        weight_from(s.drop_first(), cur * 10 + ((s[0] as u32) - 48) as nat, true)
    } else if unicode_whitespace(s[0]) {
        weight_from(s.drop_first(), cur, in_run)
    } else {
        (if in_run {
            cur + 1
        } else {
            0
        }) + weight_from(s.drop_first(), 0, false)
    }
}

/// The sum, over the runs of digits of `s`, of their values plus one: an
/// upper bound on the numbers and fractions that humantime reads from `s`.
pub open spec fn duration_weight(s: Seq<char>) -> nat {
    weight_from(s, 0, false)
}

/// `s` holds the characters `a` then `b` next to each other.
pub open spec fn has_pair(s: Seq<char>, a: char, b: char) -> bool {
    exists|i: int| 0 <= i < s.len() - 1 && s[i] == a && #[trigger] s[i + 1] == b
}

/// `s` may make humantime add nanoseconds: it holds a fraction (`.`) or a
/// letter of a sub-second unit word (`nanos`, `nsec`, `ns`, `usec`, `us`,
/// `µs`, `millis`, `msec`, `ms` each hold `n`, `u`, `µ`, `l` or `ms`).
pub open spec fn nanos_possible(s: Seq<char>) -> bool {
    s.contains('.') || s.contains('n') || s.contains('u') || s.contains('µ') || s.contains('l')
        || has_pair(s, 'm', 's')
}

/// The most seconds one unit in `s` can stand for, judged by its letters:
/// a year where a `y`, `M` or `o` occurs (years, months), a week where a `w`
/// does, a day for `d`, an hour for `h`, a minute for `m`, else one second.
pub open spec fn unit_bound(s: Seq<char>) -> nat {
    if s.contains('y') || s.contains('M') || s.contains('o') {
        31_557_600
    } else if s.contains('w') {
        604_800
    } else if s.contains('d') {
        86_400
    } else if s.contains('h') {
        3_600
    } else if s.contains('m') {
        60
    } else {
        1
    }
}

/// A duration string that humantime parses without reaching its panic:
/// either no nanoseconds can arise, or the seconds it can sum stay below
/// `u64::MAX`.
pub open spec fn duration_in_range(s: Seq<char>) -> bool {
    !nanos_possible(s) || duration_weight(s) * unit_bound(s) < u64::MAX
}

/// An open run counts at least for its value plus one.
proof fn lemma_weight_from_lower(s: Seq<char>, cur: nat, in_run: bool)
    ensures
        weight_from(s, cur, in_run) >= (if in_run {
            cur + 1
        } else {
            0
        }),
    decreases s.len(),
{
    if s.len() > 0 {
        if '0' <= s[0] && s[0] <= '9' {
            lemma_weight_from_lower(s.drop_first(), cur * 10 + ((s[0] as u32) - 48) as nat, true);
        } else if unicode_whitespace(s[0]) {
            lemma_weight_from_lower(s.drop_first(), cur, in_run);
        } else {
            lemma_weight_from_lower(s.drop_first(), 0, false);
        }
    }
}

/// Whether `c` occurs in `cs`.
fn has_char(cs: &Vec<char>, c: char) -> (r: bool)
    ensures
        r == cs@.contains(c),
{
    let mut i: usize = 0;
    while i < cs.len()
        invariant
            i <= cs@.len(),
            forall|k: int| 0 <= k < i ==> cs@[k] != c,
        decreases cs@.len() - i,
    {
        if cs[i] == c {
            assert(cs@[i as int] == c);
            return true;
        }
        i = i + 1;
    }
    false
}

/// Whether `a` is directly followed by `b` somewhere in `cs`.
fn has_pair_exec(cs: &Vec<char>, a: char, b: char) -> (r: bool)
    ensures
        r == has_pair(cs@, a, b),
{
    let mut i: usize = 0;
    while cs.len() > 0 && i < cs.len() - 1
        invariant
            i <= cs@.len(),
            forall|k: int| 0 <= k < i && k < cs@.len() - 1 ==> !(cs@[k] == a && #[trigger] cs@[k + 1] == b),
        decreases cs@.len() - i,
    {
        if cs[i] == a && cs[i + 1] == b {
            assert(cs@[i as int] == a && cs@[i + 1] == b);
            return true;
        }
        i = i + 1;
    }
    assert forall|k: int| 0 <= k < cs@.len() - 1 implies !(cs@[k] == a && #[trigger] cs@[k + 1]
        == b) by {}
    false
}

/// The weight of `cs`, when it is below `cap`.
fn weight_below(cs: &Vec<char>, cap: u64) -> (r: Option<u64>)
    requires
        cap > 0,
    ensures
        match r {
            Some(w) => w == duration_weight(cs@) && w < cap,
            None => duration_weight(cs@) >= cap,
        },
{
    let n = cs.len();
    let mut acc: u128 = 0;
    let mut cur: u128 = 0;
    let mut in_run = false;
    let mut i: usize = 0;
    assert(cs@.skip(0) =~= cs@);
    while i < n
        invariant
            i <= n,
            n == cs@.len(),
            acc < cap,
            cur < cap,
            !in_run ==> cur == 0,
            duration_weight(cs@) == acc + weight_from(cs@.skip(i as int), cur as nat, in_run),
        decreases n - i,
    {
        let c = cs[i];
        let ghost rest = cs@.skip(i as int);
        assert(rest[0] == c);
        assert(rest.drop_first() =~= cs@.skip(i + 1));
        if '0' <= c && c <= '9' {
            cur = cur * 10 + ((c as u32) - 48) as u128;
        } else if is_whitespace(c) {
        } else {
            if in_run {
                acc = acc + cur + 1;
            }
            cur = 0;
            in_run = false;
        }
        if '0' <= c && c <= '9' {
            in_run = true;
        }
        i = i + 1;
        if acc + cur >= cap as u128 {
            proof {
                lemma_weight_from_lower(cs@.skip(i as int), cur as nat, in_run);
            }
            return None;
        }
    }
    assert(cs@.skip(n as int).len() == 0);
    let total: u128 = if in_run {
        acc + cur + 1
    } else {
        acc
    };
    if total < cap as u128 {
        Some(total as u64)
    } else {
        None
    }
}

/// Whether `s` is a duration string that humantime parses without panicking.
pub fn check_duration_range(s: &str) -> (r: bool)
    ensures
        r == duration_in_range(s@),
{
    let cs = chars_of(s);
    let nanos = has_char(&cs, '.') || has_char(&cs, 'n') || has_char(&cs, 'u') || has_char(
        &cs,
        'µ',
    ) || has_char(&cs, 'l') || has_pair_exec(&cs, 'm', 's');
    if !nanos {
        return true;
    }
    let bound: u64 = if has_char(&cs, 'y') || has_char(&cs, 'M') || has_char(&cs, 'o') {
        31_557_600
    } else if has_char(&cs, 'w') {
        604_800
    } else if has_char(&cs, 'd') {
        86_400
    } else if has_char(&cs, 'h') {
        3_600
    } else if has_char(&cs, 'm') {
        60
    } else {
        1
    };
    assert(bound == unit_bound(s@));
    match weight_below(&cs, u64::MAX) {
        None => {
            assert(duration_weight(s@) * unit_bound(s@) >= u64::MAX) by (nonlinear_arith)
                requires
                    duration_weight(s@) >= u64::MAX,
                    unit_bound(s@) >= 1,
            ;
            false
        },
        Some(w) => {
            assert((w as u128) * (bound as u128) < 0x1_0000_0000_0000_0000_0000_0000u128)
                by (nonlinear_arith)
                requires
                    w < 0x1_0000_0000_0000_0000u128,
                    bound <= 31_557_600,
            ;
            (w as u128) * (bound as u128) < u64::MAX as u128
        },
    }
}

/// What the guarded duration parse gives.
#[derive(Debug)]
pub enum DurationParse {
    /// humantime parsed the string.
    Parsed(Span),
    /// humantime rejected the string.
    Invalid(humantime::DurationError),
    /// The string's numbers are too large to hand to humantime.
    TooLarge,
}

/// Parses a humantime duration, refusing strings outside
/// [`duration_in_range`] instead of handing them to humantime.
pub(crate) fn parse_duration_guarded(s: &str) -> (r: DurationParse)
    ensures
        !duration_in_range(s@) <==> r is TooLarge,
        duration_in_range(s@) ==> match humantime_duration(s@) {
            Some((secs, nanos)) => r matches DurationParse::Parsed(d) && d == (Span { secs, nanos })
                && d.wf(),
            None => r is Invalid,
        },
{
    if !check_duration_range(s) {
        return DurationParse::TooLarge;
    }
    match parse_humantime(s) {
        Ok(d) => DurationParse::Parsed(d),
        Err(e) => DurationParse::Invalid(e),
    }
}

/// Calls `humantime::parse_duration`. Claimed: the result is the named
/// [`humantime_duration`] of the input, and its sub-second part is below one
/// second (as for every `std::time::Duration`).
///
/// humantime panics (in `Duration::new`) only when the seconds it sums
/// reach `u64::MAX` with a whole second of nanoseconds still to carry.
/// Nanoseconds arise only from a fraction or a sub-second unit, which
/// [`nanos_possible`] detects by their characters. Otherwise each number it
/// reads is a run of digits (whitespace inside is skipped) and counts for at
/// most [`unit_bound`] seconds per unit, a fraction for at most one unit
/// more, so the seconds stay within `duration_weight * unit_bound`. A string
/// within [`duration_in_range`] therefore never reaches the panic, and only
/// such strings are admitted.
#[verifier::external_body]
pub(crate) fn parse_humantime(s: &str) -> (r: Result<Span, humantime::DurationError>)
    requires
        duration_in_range(s@),
    ensures
        r is Err <==> humantime_duration(s@) is None,
        r matches Ok(d) ==> humantime_duration(s@) == Some((d.secs, d.nanos)) && d.wf(),
{
    match humantime::parse_duration(s) {
        Ok(d) => Ok(Span { secs: d.as_secs(), nanos: d.subsec_nanos() }),
        Err(e) => Err(e),
    }
}

/// Calls `chrono::DateTime::parse_from_rfc3339` and reads the instant in UTC.
/// Claimed: the result is the named [`rfc3339_instant`] of the input, and it
/// lies within chrono's range (as every `DateTime` does).
#[verifier::external_body]
pub(crate) fn parse_rfc3339_instant(s: &str) -> (r: Result<Timestamp, chrono::ParseError>)
    ensures
        r is Err <==> rfc3339_instant(s@) is None,
        r matches Ok(t) ==> rfc3339_instant(s@) == Some((t.secs, t.nanos)) && t.wf(),
{
    match chrono::DateTime::parse_from_rfc3339(s) {
        Ok(d) => Ok(Timestamp { secs: d.timestamp(), nanos: d.timestamp_subsec_nanos() }),
        Err(e) => Err(e),
    }
}

/// Calls `chrono::Utc::now`. Claimed: the reading is not before the epoch,
/// is within chrono's range and is not inside a leap second (chrono builds
/// it from `SystemTime` with sub-second nanoseconds below one second). Which
/// instant it is depends on the clock. chrono panics when the system clock
/// is set before 1970: that is a fault of the machine, not of any input,
/// so no `requires` can exclude it.
#[verifier::external_body]
fn utc_now() -> (r: Timestamp)
    ensures
        r.is_clock_reading(),
{
    let now = chrono::Utc::now();
    Timestamp { secs: now.timestamp(), nanos: now.timestamp_subsec_nanos() }
}

} // verus!
