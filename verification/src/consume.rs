//! The decisions of a bounded consume: how many messages to hand out, which
//! arriving message to keep, and when to stop. The consumer loop itself
//! (awaiting the broker, sending to the sink) runs outside the library and
//! reports each event here.

use vstd::prelude::*;

use crate::assign::Assignment;
use crate::error::Error;

verus! {

/// One raw Kafka record handed to the application layer.
#[derive(Debug, Clone)]
pub struct RawMessage {
    pub partition: i32,
    pub offset: i64,
    /// Producer-set or broker-set timestamp (ms since epoch), if any.
    pub timestamp_ms: Option<i64>,
    pub key: Option<Vec<u8>>,
    pub value: Vec<u8>,
}

impl RawMessage {
    /// Bytes of the key (none when absent).
    pub open spec fn key_len(&self) -> nat {
        match self.key {
            Some(k) => k@.len(),
            None => 0,
        }
    }

    /// The bytes a message counts for: its value and its key.
    pub fn byte_size(&self) -> (r: u64)
        requires
            self.value@.len() + self.key_len() <= u64::MAX,
        ensures
            r == self.value@.len() + self.key_len(),
    {
        let k: u64 = match &self.key {
            Some(k) => k.len() as u64,
            None => 0,
        };
        self.value.len() as u64 + k
    }
}

/// Aggregate counters returned at the end of a consume run.
#[derive(Debug, Default, Clone, Copy, PartialEq, Eq, Structural)]
pub struct ConsumeStats {
    pub messages: u64,
    pub bytes: u64,
}

/// What is left to read from one partition.
#[derive(Debug, Clone, Copy, PartialEq, Eq, Structural)]
pub struct Slot {
    pub partition: i32,
    /// Messages still expected from this partition.
    pub remaining: i64,
    /// Exclusive upper offset of this partition.
    pub end_offset: i64,
}

/// Index of the slot of partition `p`.
pub open spec fn slot_index(slots: Seq<Slot>, p: i32) -> Option<int>
    decreases slots.len(),
{
    if slots.len() == 0 {
        None
    } else if slots[0].partition == p {
        Some(0)
    } else {
        match slot_index(slots.drop_first(), p) {
            Some(k) => Some(k + 1),
            None => None,
        }
    }
}

/// The slots built from `assigns` in order: one per partition, in order of
/// first appearance; the expected count comes from the last assignment of a
/// partition (a later one replaces an earlier one) and the end offset from
/// the first.
pub open spec fn slots_after(assigns: Seq<Assignment>) -> Seq<Slot>
    decreases assigns.len(),
{
    if assigns.len() == 0 {
        Seq::empty()
    } else {
        let prev = slots_after(assigns.drop_last());
        let a = assigns.last();
        match slot_index(prev, a.partition) {
            Some(i) => prev.update(
                i,
                Slot { remaining: (a.end_offset - a.start_offset) as i64, ..prev[i] },
            ),
            None => prev.push(
                Slot {
                    partition: a.partition,
                    remaining: (a.end_offset - a.start_offset) as i64,
                    end_offset: a.end_offset,
                },
            ),
        }
    }
}

/// The positive part of a count.
pub open spec fn pos(x: i64) -> nat {
    if x > 0 {
        x as nat
    } else {
        0
    }
}

/// Messages expected over all slots.
pub open spec fn slot_total(slots: Seq<Slot>) -> nat
    decreases slots.len(),
{
    if slots.len() == 0 {
        0
    } else {
        slot_total(slots.drop_last()) + pos(slots.last().remaining)
    }
}

/// Sum of a sequence of counts.
pub open spec fn nat_sum(s: Seq<nat>) -> nat
    decreases s.len(),
{
    if s.len() == 0 {
        0
    } else {
        nat_sum(s.drop_last()) + s.last()
    }
}

/// Every assignment's range length fits in `i64`.
pub open spec fn ranges_fit(assigns: Seq<Assignment>) -> bool {
    forall|j: int|
        0 <= j < assigns.len() ==> i64::MIN <= #[trigger] assigns[j].end_offset
            - assigns[j].start_offset <= i64::MAX
}

/// The messages a run hands out at most: the total expected, capped by `limit`.
pub open spec fn budget_of(total: nat, limit: Option<u64>) -> nat {
    match limit {
        Some(l) => if l < total {
            l as nat
        } else {
            total
        },
        None => total,
    }
}

/// The slots after a message from `partition` at `offset` arrives: the
/// partition's slot closes (expects nothing more) when it still expected
/// messages and the offset is at or past its end; nothing else changes.
pub open spec fn slots_on_arrival(slots: Seq<Slot>, partition: i32, offset: i64) -> Seq<Slot> {
    match slot_index(slots, partition) {
        Some(i) => if slots[i].remaining > 0 && offset >= slots[i].end_offset {
            slots.update(i, Slot { remaining: 0, ..slots[i] })
        } else {
            slots
        },
        None => slots,
    }
}

/// The slots after a message from `partition` was handed out: that
/// partition's slot expects one message fewer; nothing else changes.
pub open spec fn slots_on_sent(slots: Seq<Slot>, partition: i32) -> Seq<Slot> {
    match slot_index(slots, partition) {
        Some(i) => slots.update(i, Slot { remaining: (slots[i].remaining - 1) as i64, ..slots[i] }),
        None => slots,
    }
}

/// State of a consume run.
pub struct ConsumePlan {
    /// One slot per assigned partition.
    pub slots: Vec<Slot>,
    /// Messages that may still be handed out.
    pub left_to_send: u64,
    /// Counters of what was handed out.
    pub stats: ConsumeStats,
    /// The cap fixed at the start: `stats.messages + left_to_send`.
    pub budget: Ghost<nat>,
    /// The limit the run was started with.
    pub limit: Ghost<Option<u64>>,
    /// Expected count of each slot at the start.
    pub initial: Ghost<Seq<i64>>,
    /// Messages handed out from each slot.
    pub delivered: Ghost<Seq<nat>>,
}

impl ConsumePlan {
    /// The invariant that every step keeps.
    pub open spec fn wf(&self) -> bool {
        &&& self.initial@.len() == self.slots@.len()
        &&& self.delivered@.len() == self.slots@.len()
        &&& self.stats.messages + self.left_to_send == self.budget@
        &&& self.budget@ <= u64::MAX
        &&& (self.limit@ matches Some(l) ==> self.budget@ <= l)
        &&& self.stats.messages == nat_sum(self.delivered@)
        &&& forall|i: int|
            0 <= i < self.slots@.len() ==> #[trigger] self.delivered@[i] + pos(
                self.slots@[i].remaining,
            ) <= pos(self.initial@[i])
        &&& forall|i: int, j: int|
            0 <= i < j < self.slots@.len() ==> self.slots@[i].partition
                != self.slots@[j].partition
    }

    /// Some partition still expects a message.
    pub open spec fn any_remaining(&self) -> bool {
        exists|i: int| 0 <= i < self.slots@.len() && self.slots@[i].remaining > 0
    }

    /// Starts a run over `assigns`, handing out at most `limit` messages.
    /// An empty assignment list is [`Error::KafkaEmptyWindow`].
    pub fn new(assigns: &Vec<Assignment>, limit: Option<u64>) -> (r: Result<ConsumePlan, Error>)
        requires
            ranges_fit(assigns@),
            slot_total(slots_after(assigns@)) <= u64::MAX,
        ensures
            assigns@.len() == 0 <==> r is Err,
            r matches Err(e) ==> e matches Error::KafkaEmptyWindow,
            r matches Ok(plan) ==> {
                &&& plan.wf()
                &&& plan.slots@ == slots_after(assigns@)
                &&& plan.stats == ConsumeStats { messages: 0, bytes: 0 }
                &&& plan.left_to_send == budget_of(slot_total(slots_after(assigns@)), limit)
                &&& plan.budget@ == budget_of(slot_total(slots_after(assigns@)), limit)
                &&& plan.limit@ == limit
            },
    {
        if assigns.len() == 0 {
            return Err(Error::KafkaEmptyWindow);
        }
        let mut slots: Vec<Slot> = Vec::new();
        let mut i: usize = 0;
        while i < assigns.len()
            invariant
                i <= assigns@.len(),
                ranges_fit(assigns@),
                slots@ == slots_after(assigns@.take(i as int)),
                forall|x: int, y: int|
                    0 <= x < y < slots@.len() ==> slots@[x].partition != slots@[y].partition,
            decreases assigns@.len() - i,
        {
            assert(assigns@.take(i + 1).drop_last() =~= assigns@.take(i as int));
            assert(assigns@.take(i + 1).last() == assigns@[i as int]);
            let a = assigns[i];
            assert(i64::MIN <= assigns@[i as int].end_offset - assigns@[i as int].start_offset
                <= i64::MAX);
            let count: i64 = a.end_offset - a.start_offset;
            proof {
                lemma_slot_index_some(slots@, a.partition);
                lemma_slot_index_none(slots@, a.partition);
            }
            match find_slot(&slots, a.partition) {
                Some(k) => {
                    let old_slot = slots[k];
                    slots.set(k, Slot { remaining: count, ..old_slot });
                },
                None => {
                    slots.push(Slot { partition: a.partition, remaining: count, end_offset: a.end_offset });
                },
            }
            i = i + 1;
        }
        assert(assigns@.take(assigns@.len() as int) =~= assigns@);
        let total = total_of(&slots);
        let left: u64 = match limit {
            Some(l) => if l < total {
                l
            } else {
                total
            },
            None => total,
        };
        let ghost init = slots@.map_values(|s: Slot| s.remaining);
        let ghost zeros = Seq::new(slots@.len(), |i: int| 0nat);
        proof {
            lemma_nat_sum_zeros(slots@.len());
        }
        Ok(
            ConsumePlan {
                slots,
                left_to_send: left,
                stats: ConsumeStats { messages: 0, bytes: 0 },
                budget: Ghost(left as nat),
                limit: Ghost(limit),
                initial: Ghost(init),
                delivered: Ghost(zeros),
            },
        )
    }

    /// The loop goes on while messages may still be handed out and some
    /// partition still expects one.
    pub fn should_continue(&self) -> (r: bool)
        ensures
            r == (self.left_to_send > 0 && self.any_remaining()),
    {
        if self.left_to_send == 0 {
            return false;
        }
        let mut i: usize = 0;
        while i < self.slots.len()
            invariant
                i <= self.slots@.len(),
                self.left_to_send > 0,
                forall|k: int| 0 <= k < i ==> self.slots@[k].remaining <= 0,
            decreases self.slots@.len() - i,
        {
            if self.slots[i].remaining > 0 {
                assert(self.slots@[i as int].remaining > 0);
                return true;
            }
            i = i + 1;
        }
        false
    }

    /// Decides on a message from `partition` at `offset`: keep it (`true`)
    /// if its partition still expects a message and the offset is before the
    /// partition's end; a message at or past the end marks the partition
    /// done. Anything else is skipped and changes nothing.
    pub fn accept_message(&mut self, partition: i32, offset: i64) -> (r: bool)
        requires
            old(self).wf(),
        ensures
            final(self).wf(),
            final(self).stats == old(self).stats,
            final(self).left_to_send == old(self).left_to_send,
            final(self).budget@ == old(self).budget@,
            final(self).limit@ == old(self).limit@,
            final(self).slots@.len() == old(self).slots@.len(),
            forall|i: int|
                0 <= i < old(self).slots@.len() ==> (#[trigger] final(self).slots@[i]).partition
                    == old(self).slots@[i].partition && final(self).slots@[i].end_offset == old(
                    self,
                ).slots@[i].end_offset,
            r <==> exists|i: int|
                0 <= i < old(self).slots@.len() && old(self).slots@[i].partition == partition
                    && old(self).slots@[i].remaining > 0 && offset < old(
                    self,
                ).slots@[i].end_offset,
            final(self).slots@ == slots_on_arrival(old(self).slots@, partition, offset),
            forall|i: int|
                0 <= i < old(self).slots@.len() ==> #[trigger] final(self).slots@[i] == (if old(
                    self,
                ).slots@[i].partition == partition && old(self).slots@[i].remaining > 0 && offset
                    >= old(self).slots@[i].end_offset {
                    Slot { remaining: 0, ..old(self).slots@[i] }
                } else {
                    old(self).slots@[i]
                }),
    {
        match find_slot(&self.slots, partition) {
            None => {
                proof {
                    lemma_slot_index_none(self.slots@, partition);
                }
                false
            },
            Some(k) => {
                proof {
                    lemma_slot_index_some(self.slots@, partition);
                }
                let s = self.slots[k];
                if s.remaining <= 0 {
                    proof {
                        self.lemma_unique_slot(k as int, partition);
                    }
                    false
                } else if offset >= s.end_offset {
                    proof {
                        self.lemma_unique_slot(k as int, partition);
                    }
                    self.slots.set(k, Slot { remaining: 0, ..s });
                    false
                } else {
                    true
                }
            },
        }
    }

    /// Records that the message admitted from `partition`, `bytes` long,
    /// was handed out.
    pub fn record_sent(&mut self, partition: i32, bytes: u64)
        requires
            old(self).wf(),
            old(self).left_to_send > 0,
            exists|i: int|
                0 <= i < old(self).slots@.len() && old(self).slots@[i].partition == partition
                    && old(self).slots@[i].remaining > 0,
            old(self).stats.bytes + bytes <= u64::MAX,
        ensures
            final(self).wf(),
            final(self).stats.messages == old(self).stats.messages + 1,
            final(self).stats.bytes == old(self).stats.bytes + bytes,
            final(self).left_to_send == old(self).left_to_send - 1,
            final(self).budget@ == old(self).budget@,
            final(self).limit@ == old(self).limit@,
            final(self).slots@ == slots_on_sent(old(self).slots@, partition),
            forall|i: int|
                0 <= i < old(self).slots@.len() ==> #[trigger] final(self).slots@[i] == (if old(
                    self,
                ).slots@[i].partition == partition {
                    Slot { remaining: (old(self).slots@[i].remaining - 1) as i64, ..old(self).slots@[i] }
                } else {
                    old(self).slots@[i]
                }),
    {
        proof {
            lemma_slot_index_some(self.slots@, partition);
            lemma_slot_index_none(self.slots@, partition);
        }
        let k = match find_slot(&self.slots, partition) {
            Some(k) => k,
            None => {
                proof {
                    assert(false);
                }
                return ;
            },
        };
        let s = self.slots[k];
        proof {
            self.lemma_unique_slot(k as int, partition);
        }
        let ghost old_delivered = self.delivered@;
        self.stats.messages = self.stats.messages + 1;
        self.stats.bytes = self.stats.bytes + bytes;
        self.slots.set(k, Slot { remaining: s.remaining - 1, ..s });
        self.left_to_send = self.left_to_send - 1;
        proof {
            let nd = old_delivered.update(k as int, old_delivered[k as int] + 1);
            lemma_nat_sum_update(old_delivered, k as int);
            self.delivered = Ghost(nd);
        }
    }

    /// Counters of what was handed out so far.
    pub fn stats(&self) -> (r: ConsumeStats)
        ensures
            r == self.stats,
    {
        self.stats
    }

    proof fn lemma_unique_slot(&self, k: int, partition: i32)
        requires
            self.wf(),
            0 <= k < self.slots@.len(),
            self.slots@[k].partition == partition,
        ensures
            forall|i: int|
                0 <= i < self.slots@.len() && self.slots@[i].partition == partition ==> i == k,
    {
    }
}

/// Finds the slot of `p`.
fn find_slot(slots: &Vec<Slot>, p: i32) -> (r: Option<usize>)
    ensures
        match slot_index(slots@, p) {
            Some(k) => r matches Some(j) && j as int == k,
            None => r is None,
        },
{
    let mut i: usize = 0;
    assert(slots@.skip(0) =~= slots@);
    while i < slots.len()
        invariant
            i <= slots@.len(),
            slot_index(slots@, p) == match slot_index(slots@.skip(i as int), p) {
                Some(k) => Some(k + i),
                None => None,
            },
        decreases slots@.len() - i,
    {
        assert(slots@.skip(i as int).drop_first() =~= slots@.skip(i + 1));
        if slots[i].partition == p {
            return Some(i);
        }
        i = i + 1;
    }
    None
}

/// Sums the positive expected counts.
fn total_of(slots: &Vec<Slot>) -> (r: u64)
    requires
        slot_total(slots@) <= u64::MAX,
    ensures
        r == slot_total(slots@),
{
    let mut t: u64 = 0;
    let mut i: usize = 0;
    while i < slots.len()
        invariant
            i <= slots@.len(),
            t == slot_total(slots@.take(i as int)),
            slot_total(slots@) <= u64::MAX,
        decreases slots@.len() - i,
    {
        assert(slots@.take(i + 1).drop_last() =~= slots@.take(i as int));
        proof {
            lemma_slot_total_prefix(slots@, i as int + 1);
        }
        let r = slots[i].remaining;
        if r > 0 {
            t = t + r as u64;
        }
        i = i + 1;
    }
    assert(slots@.take(slots@.len() as int) =~= slots@);
    t
}

proof fn lemma_slot_total_prefix(s: Seq<Slot>, n: int)
    requires
        0 <= n <= s.len(),
    ensures
        slot_total(s.take(n)) <= slot_total(s),
    decreases s.len() - n,
{
    if n < s.len() {
        lemma_slot_total_prefix(s, n + 1);
        assert(s.take(n + 1).drop_last() =~= s.take(n));
    } else {
        assert(s.take(n) =~= s);
    }
}

proof fn lemma_slot_index_some(s: Seq<Slot>, p: i32)
    ensures
        slot_index(s, p) matches Some(k) ==> 0 <= k < s.len() && s[k].partition == p,
    decreases s.len(),
{
    if s.len() > 0 && s[0].partition != p {
        lemma_slot_index_some(s.drop_first(), p);
    }
}

proof fn lemma_slot_index_none(s: Seq<Slot>, p: i32)
    ensures
        slot_index(s, p) is None ==> forall|i: int| 0 <= i < s.len() ==> s[i].partition != p,
    decreases s.len(),
{
    if s.len() > 0 && s[0].partition != p {
        lemma_slot_index_none(s.drop_first(), p);
        if slot_index(s, p) is None {
            assert forall|i: int| 0 <= i < s.len() implies s[i].partition != p by {
                if i > 0 {
                    assert(s[i] == s.drop_first()[i - 1]);
                }
            }
        }
    }
}

proof fn lemma_nat_sum_zeros(n: nat)
    ensures
        nat_sum(Seq::new(n, |i: int| 0nat)) == 0,
    decreases n,
{
    if n > 0 {
        lemma_nat_sum_zeros((n - 1) as nat);
        assert(Seq::new(n, |i: int| 0nat).drop_last() =~= Seq::new((n - 1) as nat, |i: int| 0nat));
    }
}

proof fn lemma_nat_sum_update(s: Seq<nat>, k: int)
    requires
        0 <= k < s.len(),
    ensures
        nat_sum(s.update(k, s[k] + 1)) == nat_sum(s) + 1,
    decreases s.len(),
{
    if k < s.len() - 1 {
        lemma_nat_sum_update(s.drop_last(), k);
        assert(s.update(k, s[k] + 1).drop_last() =~= s.drop_last().update(k, s[k] + 1));
    } else {
        assert(s.update(k, s[k] + 1).drop_last() =~= s.drop_last());
    }
}


/// A run never hands out more messages than its limit or than its
/// partitions expected, and never more from one partition than that
/// partition expected.
pub proof fn lemma_plan_within_budget(plan: ConsumePlan)
    requires
        plan.wf(),
    ensures
        plan.stats.messages <= plan.budget@,
        plan.limit@ matches Some(l) ==> plan.stats.messages <= l,
        forall|i: int|
            0 <= i < plan.slots@.len() ==> #[trigger] plan.delivered@[i] <= pos(plan.initial@[i]),
{
}

/// A run that has used up its budget has handed out exactly the budget:
/// `min(limit, T)` messages, with `T` the messages its assignments expected
/// (see [`ConsumePlan::new`]).
pub proof fn lemma_exhausted_run_count(plan: ConsumePlan)
    requires
        plan.wf(),
        plan.left_to_send == 0,
    ensures
        plan.stats.messages == plan.budget@,
{
}

} // verus!
