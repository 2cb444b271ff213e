//! Per-partition offset ranges: how a window becomes the messages to read.
//!
//! The consumer asks the cluster for partitions, watermarks and the offsets
//! matching a time; the rules that turn those answers into start/end offsets
//! live here.

use vstd::prelude::*;

use std::collections::HashMap;

use crate::error::Error;
use crate::window::OffsetStart;

verus! {

broadcast use vstd::std_specs::hash::group_hash_axioms;

/// The offsets to read from one partition: `start_offset` inclusive,
/// `end_offset` exclusive.
#[derive(Debug, Clone, Copy, PartialEq, Eq, Structural)]
pub struct Assignment {
    pub partition: i32,
    pub start_offset: i64,
    /// Exclusive upper bound: messages with offset >= end_offset are not consumed.
    pub end_offset: i64,
}

/// The low and high watermark of `p`, or `(0, 0)` for an unknown partition.
pub open spec fn watermark_of(m: Map<i32, (i64, i64)>, p: i32) -> (i64, i64) {
    if m.contains_key(p) {
        m[p]
    } else {
        (0, 0)
    }
}

/// Messages planned for the `i`-th of `n` partitions: the limit shared as
/// evenly as it goes (the first `limit % n` partitions take one more), so
/// that the shares add up to the limit; as `i64`, capped at `i64::MAX`.
pub open spec fn partition_share(limit: u64, n: nat, i: int) -> i64 {
    if n == 0 {
        0
    } else {
        let q: int = limit as int / n as int + (if i < limit as int % n as int {
            1int
        } else {
            0
        });
        if q > i64::MAX {
            i64::MAX
        } else {
            q as i64
        }
    }
}

/// Messages covered by a list of ranges.
pub open spec fn range_total(s: Seq<Assignment>) -> int
    decreases s.len(),
{
    if s.len() == 0 {
        0
    } else {
        range_total(s.drop_last()) + (s.last().end_offset - s.last().start_offset)
    }
}

/// Smaller of two offsets.
pub open spec fn min_i64(a: i64, b: i64) -> i64 {
    if a <= b {
        a
    } else {
        b
    }
}

/// Larger of two offsets.
pub open spec fn max_i64(a: i64, b: i64) -> i64 {
    if a >= b {
        a
    } else {
        b
    }
}

/// The range read from partition `p` with watermarks `(low, high)`.
pub open spec fn offset_assignment(start: OffsetStart, per: i64, p: i32, wm: (i64, i64)) -> Assignment {
    match start {
        OffsetStart::Earliest => Assignment {
            partition: p,
            start_offset: wm.0,
            end_offset: min_i64((wm.0 + per) as i64, wm.1),
        },
        OffsetStart::Latest => Assignment {
            partition: p,
            start_offset: max_i64((wm.1 - per) as i64, wm.0),
            end_offset: wm.1,
        },
    }
}

/// The offset arithmetic stays within `i64` for every partition.
pub open spec fn offset_plan_fits(
    start: OffsetStart,
    limit: u64,
    partitions: Seq<i32>,
    m: Map<i32, (i64, i64)>,
) -> bool {
    forall|i: int|
        0 <= i < partitions.len() ==> {
            let per = partition_share(limit, partitions.len(), i);
            let wm = watermark_of(m, #[trigger] partitions[i]);
            match start {
                OffsetStart::Earliest => i64::MIN <= wm.0 + per <= i64::MAX,
                OffsetStart::Latest => i64::MIN <= wm.1 - per <= i64::MAX,
            }
        }
}

/// Every listed partition has its low watermark at or below its high one.
pub open spec fn watermarks_ordered(partitions: Seq<i32>, m: Map<i32, (i64, i64)>) -> bool {
    forall|i: int|
        0 <= i < partitions.len() ==> watermark_of(m, #[trigger] partitions[i]).0 <= watermark_of(
            m,
            partitions[i],
        ).1
}

/// Looks up the watermarks of `p`.
fn watermark(watermarks: &HashMap<i32, (i64, i64)>, p: i32) -> (r: (i64, i64))
    ensures
        r == watermark_of(watermarks@, p),
{
    match watermarks.get(&p) {
        Some(w) => *w,
        None => (0, 0),
    }
}

/// Offset-based assignment: `limit` messages shared across the partitions
/// (see [`partition_share`]), taken from the low watermark up (`Earliest`)
/// or from the high watermark down (`Latest`), never past the other
/// watermark. Together the ranges hold at most `limit` messages.
pub fn resolve_offset_based(
    start: OffsetStart,
    limit: u64,
    partitions: &[i32],
    watermarks: &HashMap<i32, (i64, i64)>,
) -> (r: Vec<Assignment>)
    requires
        offset_plan_fits(start, limit, partitions@, watermarks@),
    ensures
        r@.len() == partitions@.len(),
        forall|i: int|
            0 <= i < partitions@.len() ==> #[trigger] r@[i] == offset_assignment(
                start,
                partition_share(limit, partitions@.len(), i),
                partitions@[i],
                watermark_of(watermarks@, partitions@[i]),
            ),
        watermarks_ordered(partitions@, watermarks@) ==> range_total(r@) <= limit,
        forall|i: int|
            0 <= i < partitions@.len() && watermark_of(watermarks@, partitions@[i]).0
                <= watermark_of(watermarks@, partitions@[i]).1 ==> {
                let low = watermark_of(watermarks@, partitions@[i]).0;
                let high = watermark_of(watermarks@, partitions@[i]).1;
                let share = partition_share(limit, partitions@.len(), i);
                &&& (#[trigger] r@[i]).partition == partitions@[i]
                &&& start == OffsetStart::Earliest ==> r@[i].start_offset == low
                &&& start == OffsetStart::Latest ==> r@[i].end_offset == high
                &&& r@[i].end_offset - r@[i].start_offset == (if share <= high - low {
                    share as int
                } else {
                    high - low
                })
            },
        forall|i: int|
            0 <= i < partitions@.len() && limit <= i64::MAX ==> limit as int / partitions@.len() as int
                <= #[trigger] partition_share(limit, partitions@.len(), i) <= limit as int
                / partitions@.len() as int + 1,
{
    let n: usize = partitions.len();
    let mut out: Vec<Assignment> = Vec::new();
    if n == 0 {
        return out;
    }
    let q: u64 = limit / (n as u64);
    let rem: u64 = limit % (n as u64);
    proof {
        lemma_div_parts(limit as int, n as int);
    }
    let mut i: usize = 0;
    while i < n
        invariant
            i <= n,
            n == partitions@.len(),
            n > 0,
            q == limit as int / n as int,
            rem == limit as int % n as int,
            rem > 0 ==> q + 1 <= limit,
            out@.len() == i,
            offset_plan_fits(start, limit, partitions@, watermarks@),
            forall|k: int|
                0 <= k < i ==> #[trigger] out@[k] == offset_assignment(
                    start,
                    partition_share(limit, n as nat, k),
                    partitions@[k],
                    watermark_of(watermarks@, partitions@[k]),
                ),
        decreases n - i,
    {
        let share: u64 = if (i as u64) < rem {
            q + 1
        } else {
            q
        };
        let per_part: i64 = if share > 9223372036854775807u64 {
            9223372036854775807i64
        } else {
            share as i64
        };
        assert(per_part == partition_share(limit, n as nat, i as int));
        let p = partitions[i];
        let (low, high) = watermark(watermarks, p);
        assert(watermark_of(watermarks@, partitions@[i as int]) == (low, high));
        let a = match start {
            OffsetStart::Earliest => {
                let e = low + per_part;
                Assignment {
                    partition: p,
                    start_offset: low,
                    end_offset: if e <= high {
                        e
                    } else {
                        high
                    },
                }
            },
            OffsetStart::Latest => {
                let s = high - per_part;
                Assignment {
                    partition: p,
                    start_offset: if s >= low {
                        s
                    } else {
                        low
                    },
                    end_offset: high,
                }
            },
        };
        out.push(a);
        i = i + 1;
    }
    proof {
        if watermarks_ordered(partitions@, watermarks@) {
            lemma_plan_total(start, limit, partitions@, watermarks@, out@, n as int);
        }
    }
    out
}

/// `limit = n * (limit / n) + limit % n`, and one more than the quotient
/// still fits when there is a remainder.
proof fn lemma_div_parts(limit: int, n: int)
    requires
        0 <= limit,
        0 < n,
    ensures
        limit == n * (limit / n) + limit % n,
        0 <= limit % n < n,
        0 <= limit / n,
        limit % n > 0 ==> limit / n + 1 <= limit,
{
    vstd::arithmetic::div_mod::lemma_fundamental_div_mod(limit, n);
    vstd::arithmetic::div_mod::lemma_mod_bound(limit, n);
    vstd::arithmetic::div_mod::lemma_div_pos_is_pos(limit, n);
    let q = limit / n;
    let r = limit % n;
    assert(n * q >= q) by (nonlinear_arith)
        requires
            n >= 1,
            q >= 0,
    ;
}

/// The first `k` ranges of the plan hold at most `k` quotients plus
/// `min(k, remainder)` messages.
proof fn lemma_plan_total(
    start: OffsetStart,
    limit: u64,
    partitions: Seq<i32>,
    m: Map<i32, (i64, i64)>,
    r: Seq<Assignment>,
    k: int,
)
    requires
        0 <= k <= r.len(),
        r.len() == partitions.len(),
        partitions.len() > 0,
        watermarks_ordered(partitions, m),
        offset_plan_fits(start, limit, partitions, m),
        forall|i: int|
            0 <= i < r.len() ==> #[trigger] r[i] == offset_assignment(
                start,
                partition_share(limit, partitions.len(), i),
                partitions[i],
                watermark_of(m, partitions[i]),
            ),
    ensures
        range_total(r.take(k)) <= k * (limit as int / partitions.len() as int) + (if k
            < limit as int % partitions.len() as int {
            k
        } else {
            limit as int % partitions.len() as int
        }),
        k == r.len() ==> range_total(r) <= limit,
    decreases k,
{
    let n = partitions.len() as int;
    let q = limit as int / n;
    let rem = limit as int % n;
    lemma_div_parts(limit as int, n);
    if k > 0 {
        lemma_plan_total(start, limit, partitions, m, r, k - 1);
        assert(r.take(k).drop_last() =~= r.take(k - 1));
        let i = k - 1;
        let per = partition_share(limit, partitions.len(), i);
        let wm = watermark_of(m, partitions[i]);
        assert(wm.0 <= wm.1);
        assert(r.take(k).last() == r[i]);
        assert(0 <= per <= q + (if i < rem {
            1int
        } else {
            0
        }));
        assert(r[i].end_offset - r[i].start_offset <= per);
        assert(k * q == (k - 1) * q + q) by (nonlinear_arith);
    }
    if k == r.len() {
        assert(r.take(k) =~= r);
        assert(n * q + rem == limit);
    }
}

/// The start or end offset of a partition for a resolved time: a
/// non-negative offset clamped into the watermarks, else the high watermark.
pub open spec fn clamp_spec(resolved: Option<i64>, low: i64, high: i64) -> i64 {
    match resolved {
        Some(n) => if n >= 0 {
            min_i64(max_i64(n, low), high)
        } else {
            high
        },
        None => high,
    }
}

/// Clamps an offset that the cluster returned for a timestamp (`None` when
/// it returned no plain offset for the partition).
pub fn clamp_resolved_offset(resolved: Option<i64>, low: i64, high: i64) -> (r: i64)
    ensures
        r == clamp_spec(resolved, low, high),
{
    match resolved {
        Some(n) => if n >= 0 {
            let m = if n >= low {
                n
            } else {
                low
            };
            if m <= high {
                m
            } else {
                high
            }
        } else {
            high
        },
        None => high,
    }
}

/// The range read from partition `p` for a time window.
pub open spec fn time_assignment(
    p: i32,
    wm: (i64, i64),
    from: Option<i64>,
    to: Option<Option<i64>>,
) -> Assignment {
    Assignment {
        partition: p,
        start_offset: clamp_spec(from, wm.0, wm.1),
        end_offset: match to {
            Some(t) => clamp_spec(t, wm.0, wm.1),
            None => wm.1,
        },
    }
}

/// Time-based assignment. `from_resolved[i]` is the offset the cluster gave
/// for the lower time on `partitions[i]`; `to_resolved`, when the window has
/// an upper time, likewise for it. Without an upper time each partition is
/// read up to its high watermark.
pub fn resolve_time_based(
    partitions: &[i32],
    watermarks: &HashMap<i32, (i64, i64)>,
    from_resolved: &[Option<i64>],
    to_resolved: Option<&[Option<i64>]>,
) -> (r: Vec<Assignment>)
    requires
        from_resolved@.len() == partitions@.len(),
        to_resolved matches Some(t) ==> t@.len() == partitions@.len(),
    ensures
        r@.len() == partitions@.len(),
        forall|i: int|
            0 <= i < partitions@.len() ==> #[trigger] r@[i] == time_assignment(
                partitions@[i],
                watermark_of(watermarks@, partitions@[i]),
                from_resolved@[i],
                match to_resolved {
                    Some(t) => Some(t@[i]),
                    None => None,
                },
            ),
{
    let mut out: Vec<Assignment> = Vec::new();
    let mut i: usize = 0;
    while i < partitions.len()
        invariant
            i <= partitions@.len(),
            out@.len() == i,
            from_resolved@.len() == partitions@.len(),
            to_resolved matches Some(t) ==> t@.len() == partitions@.len(),
            forall|k: int|
                0 <= k < i ==> #[trigger] out@[k] == time_assignment(
                    partitions@[k],
                    watermark_of(watermarks@, partitions@[k]),
                    from_resolved@[k],
                    match to_resolved {
                        Some(t) => Some(t@[k]),
                        None => None,
                    },
                ),
        decreases partitions@.len() - i,
    {
        let p = partitions[i];
        let (low, high) = watermark(watermarks, p);
        let from_off = clamp_resolved_offset(from_resolved[i], low, high);
        let to_off = match to_resolved {
            Some(t) => clamp_resolved_offset(t[i], low, high),
            None => high,
        };
        out.push(Assignment { partition: p, start_offset: from_off, end_offset: to_off });
        i = i + 1;
    }
    out
}

/// The window starts before what the partition still retains: the cluster
/// answered the lower time with an offset at or below a low watermark that
/// has moved past zero, so reading starts from the earliest offset left.
pub open spec fn before_retention(resolved: Option<i64>, low: i64) -> bool {
    match resolved {
        Some(n) => 0 <= n && n <= low && low > 0,
        None => false,
    }
}

/// The partitions, in order, whose lower time lies before retention.
pub open spec fn retention_hits(
    partitions: Seq<i32>,
    m: Map<i32, (i64, i64)>,
    from: Seq<Option<i64>>,
) -> Seq<i32>
    decreases partitions.len(),
{
    if partitions.len() == 0 {
        Seq::empty()
    } else {
        let i = partitions.len() - 1;
        let prev = retention_hits(partitions.drop_last(), m, from);
        if before_retention(from[i], watermark_of(m, partitions[i]).0) {
            prev.push(partitions[i])
        } else {
            prev
        }
    }
}

/// The partitions on which a time window starts before retention; the
/// caller warns that those are read from their earliest available offset.
pub fn partitions_before_retention(
    partitions: &[i32],
    watermarks: &HashMap<i32, (i64, i64)>,
    from_resolved: &[Option<i64>],
) -> (r: Vec<i32>)
    requires
        from_resolved@.len() == partitions@.len(),
    ensures
        r@ == retention_hits(partitions@, watermarks@, from_resolved@),
{
    let mut out: Vec<i32> = Vec::new();
    let mut i: usize = 0;
    while i < partitions.len()
        invariant
            i <= partitions@.len(),
            from_resolved@.len() == partitions@.len(),
            out@ == retention_hits(partitions@.take(i as int), watermarks@, from_resolved@),
        decreases partitions@.len() - i,
    {
        assert(partitions@.take(i + 1).drop_last() =~= partitions@.take(i as int));
        let p = partitions[i];
        let (low, _high) = watermark(watermarks, p);
        let hit = match from_resolved[i] {
            Some(n) => 0 <= n && n <= low && low > 0,
            None => false,
        };
        if hit {
            out.push(p);
        }
        i = i + 1;
    }
    assert(partitions@.take(partitions@.len() as int) =~= partitions@);
    out
}

/// The assignments that cover at least one message, in order.
pub open spec fn nonempty_only(s: Seq<Assignment>) -> Seq<Assignment>
    decreases s.len(),
{
    if s.len() == 0 {
        s
    } else {
        let rest = nonempty_only(s.drop_last());
        if s.last().end_offset > s.last().start_offset {
            rest.push(s.last())
        } else {
            rest
        }
    }
}

/// Drops the assignments that cover no message.
pub fn retain_nonempty(v: Vec<Assignment>) -> (r: Vec<Assignment>)
    ensures
        r@ == nonempty_only(v@),
{
    let mut out: Vec<Assignment> = Vec::new();
    let mut i: usize = 0;
    while i < v.len()
        invariant
            i <= v@.len(),
            out@ == nonempty_only(v@.take(i as int)),
        decreases v@.len() - i,
    {
        assert(v@.take(i + 1).drop_last() =~= v@.take(i as int));
        let a = v[i];
        if a.end_offset > a.start_offset {
            out.push(a);
        }
        i = i + 1;
    }
    assert(v@.take(v@.len() as int) =~= v@);
    out
}

/// The partitions of `topic`, given what the cluster metadata listed for it
/// (`None` when the topic is absent). A topic without partitions is missing.
pub fn topic_partitions(topic: &str, listed: Option<Vec<i32>>) -> (r: Result<Vec<i32>, Error>)
    ensures
        match listed {
            Some(ps) => if ps@.len() > 0 {
                r matches Ok(v) && v@ == ps@
            } else {
                r matches Err(Error::KafkaTopicMissing(t)) && t@ == topic@
            },
            None => r matches Err(Error::KafkaTopicMissing(t)) && t@ == topic@,
        },
{
    match listed {
        Some(ps) => if ps.len() > 0 {
            Ok(ps)
        } else {
            Err(Error::KafkaTopicMissing(topic.to_owned()))
        },
        None => Err(Error::KafkaTopicMissing(topic.to_owned())),
    }
}


/// An offset-based range stays within the watermarks and holds the
/// partition's share, or the whole partition when it holds fewer: from the
/// low watermark up for `Earliest`, from the high watermark down for
/// `Latest`.
pub proof fn lemma_offset_assignment_within(start: OffsetStart, per: i64, p: i32, wm: (i64, i64))
    requires
        wm.0 <= wm.1,
        per >= 0,
        i64::MIN <= wm.0 + per <= i64::MAX,
        i64::MIN <= wm.1 - per <= i64::MAX,
    ensures
        ({
            let a = offset_assignment(start, per, p, wm);
            &&& a.partition == p
            &&& wm.0 <= a.start_offset <= a.end_offset <= wm.1
            &&& a.end_offset - a.start_offset == (if per <= wm.1 - wm.0 {
                per as int
            } else {
                wm.1 - wm.0
            })
            &&& start == OffsetStart::Earliest ==> a.start_offset == wm.0
            &&& start == OffsetStart::Latest ==> a.end_offset == wm.1
        }),
{
}

/// The limit is split as evenly as it goes: every share is the quotient
/// or one more, and the shares add up to the limit.
pub proof fn lemma_shares_split_limit(limit: u64, n: nat)
    requires
        n > 0,
        limit <= i64::MAX,
    ensures
        forall|i: int|
            0 <= i < n ==> limit as int / n as int <= #[trigger] partition_share(limit, n, i)
                <= limit as int / n as int + 1,
        share_sum(limit, n, n as int) == limit,
{
    lemma_div_parts(limit as int, n as int);
    lemma_share_sum(limit, n, n as int);
}

/// The shares of the first `k` partitions.
pub open spec fn share_sum(limit: u64, n: nat, k: int) -> int
    decreases k,
{
    if k <= 0 {
        0
    } else {
        share_sum(limit, n, k - 1) + partition_share(limit, n, k - 1)
    }
}

proof fn lemma_share_sum(limit: u64, n: nat, k: int)
    requires
        n > 0,
        limit <= i64::MAX,
        0 <= k <= n,
    ensures
        share_sum(limit, n, k) == k * (limit as int / n as int) + (if k < limit as int % n as int {
            k
        } else {
            limit as int % n as int
        }),
    decreases k,
{
    lemma_div_parts(limit as int, n as int);
    if k > 0 {
        lemma_share_sum(limit, n, k - 1);
        let q = limit as int / n as int;
        assert(k * q == (k - 1) * q + q) by (nonlinear_arith);
        let rem = limit as int % n as int;
        assert(rem > 0 ==> q + 1 <= limit);
        assert(partition_share(limit, n, k - 1) == q + (if k - 1 < rem {
            1int
        } else {
            0
        }));
    } else {
        assert(k * (limit as int / n as int) == 0) by (nonlinear_arith)
            requires
                k == 0,
        ;
    }
    if k == n {
        assert(n * (limit as int / n as int) + limit as int % n as int == limit);
    }
}

/// A clamped offset lies within the watermarks.
pub proof fn lemma_clamp_within(resolved: Option<i64>, low: i64, high: i64)
    requires
        low <= high,
    ensures
        low <= clamp_spec(resolved, low, high) <= high,
{
}

/// Every assignment left after filtering covers at least one message, and
/// none that covers one is dropped.
pub proof fn lemma_nonempty_only(s: Seq<Assignment>)
    ensures
        forall|i: int|
            0 <= i < nonempty_only(s).len() ==> (#[trigger] nonempty_only(s)[i]).end_offset
                > nonempty_only(s)[i].start_offset,
        forall|i: int|
            0 <= i < s.len() && s[i].end_offset > s[i].start_offset ==> nonempty_only(
                s,
            ).contains(#[trigger] s[i]),
    decreases s.len(),
{
    if s.len() > 0 {
        let t = s.drop_last();
        lemma_nonempty_only(t);
        assert forall|i: int|
            0 <= i < s.len() && s[i].end_offset > s[i].start_offset implies nonempty_only(
            s,
        ).contains(#[trigger] s[i]) by {
            if i < s.len() - 1 {
                assert(s[i] == t[i]);
                let k = choose|k: int| 0 <= k < nonempty_only(t).len() && nonempty_only(t)[k] == t[i];
                if s.last().end_offset > s.last().start_offset {
                    assert(nonempty_only(s)[k] == t[i]);
                }
            } else {
                assert(nonempty_only(s).last() == s[i]);
            }
        }
    }
}

} // verus!
