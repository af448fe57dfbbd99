//! Per-player priority queue of replication updates.
//!
//! Updates wait in one FIFO lane per priority. Popping always serves the most
//! urgent non-empty lane first, so the order in which updates leave the queue
//! is the concatenation of the Critical, High, Normal and Low lanes. Each lane
//! has a capacity; pushing into a full lane drops that lane's oldest update.

use crate::priority::{CompressionType, ReplicationPriority};
use crate::types::GorcObjectId;
use std::collections::VecDeque;
use vstd::prelude::*;

verus! {

/// A single replication update for network transmission.
#[derive(Debug, Clone)]
pub struct ReplicationUpdate {
    /// Object being replicated
    pub object_id: GorcObjectId,
    /// Object type name
    pub object_type: String,
    /// Replication channel
    pub channel: u8,
    /// Serialized object data
    pub data: Vec<u8>,
    /// Update priority
    pub priority: ReplicationPriority,
    /// Update sequence number for ordering
    pub sequence: u32,
    /// Timestamp when update was created
    pub timestamp: u64,
    /// Compression used for the data
    pub compression: CompressionType,
}

/// Capacity used for a lane whose limit is not configured.
pub const DEFAULT_LANE_CAPACITY: usize = 100;

/// Per-priority capacities of a [`PriorityUpdateQueue`]; a lane without a
/// configured limit holds [`DEFAULT_LANE_CAPACITY`] updates.
#[derive(Debug, Clone, Copy, PartialEq, Eq, Structural)]
pub struct QueueLimits {
    pub critical: Option<usize>,
    pub high: Option<usize>,
    pub normal: Option<usize>,
    pub low: Option<usize>,
}

/// Effective capacity of an optional limit.
pub open spec fn spec_effective_limit(limit: Option<usize>) -> nat {
    match limit {
        Some(n) => n as nat,
        None => DEFAULT_LANE_CAPACITY as nat,
    }
}

impl QueueLimits {
    /// Limits with no lane configured: every lane holds the default capacity.
    pub fn new() -> (l: Self)
        ensures
            l.critical is None && l.high is None && l.normal is None && l.low is None,
    {
        QueueLimits { critical: None, high: None, normal: None, low: None }
    }

    /// The configured limit of a priority's lane.
    pub open spec fn spec_get(self, p: ReplicationPriority) -> Option<usize> {
        match p {
            ReplicationPriority::Critical => self.critical,
            ReplicationPriority::High => self.high,
            ReplicationPriority::Normal => self.normal,
            ReplicationPriority::Low => self.low,
        }
    }

    /// Sets the limit of one priority's lane, keeping the others.
    pub fn set(&mut self, p: ReplicationPriority, max_size: usize)
        ensures
            final(self).spec_get(p) == Some(max_size),
            forall|q: ReplicationPriority| q != p ==> final(self).spec_get(q) == old(self).spec_get(q),
    {
        match p {
            ReplicationPriority::Critical => self.critical = Some(max_size),
            ReplicationPriority::High => self.high = Some(max_size),
            ReplicationPriority::Normal => self.normal = Some(max_size),
            ReplicationPriority::Low => self.low = Some(max_size),
        }
    }

    /// Effective capacity of a priority's lane (the default where unset).
    pub fn capacity(&self, p: ReplicationPriority) -> (n: usize)
        ensures
            n == spec_effective_limit(self.spec_get(p)),
    {
        let limit = match p {
            ReplicationPriority::Critical => self.critical,
            ReplicationPriority::High => self.high,
            ReplicationPriority::Normal => self.normal,
            ReplicationPriority::Low => self.low,
        };
        match limit {
            Some(n) => n,
            None => DEFAULT_LANE_CAPACITY,
        }
    }
}

/// A lane after making room for one more update: a lane at or above its
/// capacity loses its oldest update.
pub open spec fn spec_trim(lane: Seq<ReplicationUpdate>, capacity: nat) -> Seq<ReplicationUpdate> {
    if lane.len() >= capacity && lane.len() > 0 {
        lane.drop_first()
    } else {
        lane
    }
}

/// Priority-based update queue that ensures high-priority updates are sent first.
#[derive(Debug)]
pub struct PriorityUpdateQueue {
    critical: VecDeque<ReplicationUpdate>,
    high: VecDeque<ReplicationUpdate>,
    normal: VecDeque<ReplicationUpdate>,
    low: VecDeque<ReplicationUpdate>,
    limits: QueueLimits,
    total_updates: usize,
}

/// Adds an update at the back of a lane, first dropping the lane's oldest
/// update where the lane is at its capacity. Returns whether one was dropped.
fn push_into_lane(lane: &mut VecDeque<ReplicationUpdate>, capacity: usize, update: ReplicationUpdate) -> (dropped: bool)
    ensures
        final(lane)@ == spec_trim(old(lane)@, capacity as nat).push(update),
        dropped == (old(lane)@.len() >= capacity && old(lane)@.len() > 0),
{
    let mut dropped = false;
    if lane.len() >= capacity {
        let oldest = lane.pop_front();
        dropped = oldest.is_some();
    }
    lane.push_back(update);
    dropped
}

impl PriorityUpdateQueue {
    /// The updates waiting in a priority's lane, oldest first.
    pub closed spec fn lane(&self, p: ReplicationPriority) -> Seq<ReplicationUpdate> {
        match p {
            ReplicationPriority::Critical => self.critical@,
            ReplicationPriority::High => self.high@,
            ReplicationPriority::Normal => self.normal@,
            ReplicationPriority::Low => self.low@,
        }
    }

    /// The capacities the queue was made with.
    pub closed spec fn limits(&self) -> QueueLimits {
        self.limits
    }

    /// Effective capacity of a priority's lane.
    pub open spec fn capacity_of(&self, p: ReplicationPriority) -> nat {
        spec_effective_limit(self.limits().spec_get(p))
    }

    /// The order in which the waiting updates leave the queue.
    pub open spec fn order(&self) -> Seq<ReplicationUpdate> {
        self.lane(ReplicationPriority::Critical) + self.lane(ReplicationPriority::High) + self.lane(
            ReplicationPriority::Normal,
        ) + self.lane(ReplicationPriority::Low)
    }

    /// Number of waiting updates.
    pub open spec fn spec_len(&self) -> nat {
        self.order().len()
    }

    /// The most urgent non-empty lane, if any.
    pub open spec fn head_lane(&self) -> Option<ReplicationPriority> {
        if self.lane(ReplicationPriority::Critical).len() > 0 {
            Some(ReplicationPriority::Critical)
        } else if self.lane(ReplicationPriority::High).len() > 0 {
            Some(ReplicationPriority::High)
        } else if self.lane(ReplicationPriority::Normal).len() > 0 {
            Some(ReplicationPriority::Normal)
        } else if self.lane(ReplicationPriority::Low).len() > 0 {
            Some(ReplicationPriority::Low)
        } else {
            None
        }
    }

    /// The queue's count of waiting updates agrees with its lanes, every
    /// lane holds only updates of its own priority, and no lane holds more
    /// than its capacity (at least one update).
    pub closed spec fn wf(&self) -> bool {
        &&& self.total_updates as nat == self.critical@.len() + self.high@.len() + self.normal@.len()
            + self.low@.len()
        &&& forall|p: ReplicationPriority, i: int| 0 <= i < self.lane(p).len() ==> #[trigger] self.lane(p)[i].priority == p
        &&& forall|p: ReplicationPriority| #[trigger] self.lane(p).len() <= vstd::math::max(self.capacity_of(p) as int, 1)
    }

    /// Creates an empty queue with the given lane capacities.
    pub fn new(max_sizes: QueueLimits) -> (q: Self)
        ensures
            q.wf(),
            q.limits() == max_sizes,
            forall|p: ReplicationPriority| q.lane(p) == Seq::<ReplicationUpdate>::empty(),
            q.spec_len() == 0,
    {
        let q = PriorityUpdateQueue {
            critical: VecDeque::new(),
            high: VecDeque::new(),
            normal: VecDeque::new(),
            low: VecDeque::new(),
            limits: max_sizes,
            total_updates: 0,
        };
        assert(q.order() =~= Seq::<ReplicationUpdate>::empty());
        q
    }

    /// Adds an update at the back of its priority's lane. Where that lane is
    /// at its capacity, its oldest update is dropped first. Always succeeds.
    pub fn push(&mut self, update: ReplicationUpdate) -> (accepted: bool)
        requires
            old(self).wf(),
            old(self).spec_len() < usize::MAX,
        ensures
            accepted,
            final(self).wf(),
            final(self).limits() == old(self).limits(),
            final(self).lane(update.priority) == spec_trim(
                old(self).lane(update.priority),
                old(self).capacity_of(update.priority),
            ).push(update),
            forall|q: ReplicationPriority|
                q != update.priority ==> #[trigger] final(self).lane(q) == old(self).lane(q),
    {
        let priority = update.priority;
        let capacity = self.limits.capacity(priority);
        let dropped = match priority {
            ReplicationPriority::Critical => push_into_lane(&mut self.critical, capacity, update),
            ReplicationPriority::High => push_into_lane(&mut self.high, capacity, update),
            ReplicationPriority::Normal => push_into_lane(&mut self.normal, capacity, update),
            ReplicationPriority::Low => push_into_lane(&mut self.low, capacity, update),
        };
        if !dropped {
            self.total_updates = self.total_updates + 1;
        }
        true
    }

    /// Removes and returns the oldest update of the most urgent non-empty lane.
    pub fn pop(&mut self) -> (r: Option<ReplicationUpdate>)
        requires
            old(self).wf(),
        ensures
            final(self).wf(),
            final(self).limits() == old(self).limits(),
            match old(self).head_lane() {
                None => r is None && forall|q: ReplicationPriority| #[trigger] final(self).lane(q) == old(self).lane(q),
                Some(p) => {
                    &&& r == Some(old(self).lane(p)[0])
                    &&& final(self).lane(p) == old(self).lane(p).drop_first()
                    &&& forall|q: ReplicationPriority| q != p ==> #[trigger] final(self).lane(q) == old(self).lane(q)
                },
            },
            r is None <==> old(self).spec_len() == 0,
            r matches Some(u) ==> u == old(self).order()[0],
            final(self).order() == if old(self).spec_len() == 0 {
                old(self).order()
            } else {
                old(self).order().drop_first()
            },
    {
        let mut r = self.critical.pop_front();
        if r.is_none() {
            r = self.high.pop_front();
        }
        if r.is_none() {
            r = self.normal.pop_front();
        }
        if r.is_none() {
            r = self.low.pop_front();
        }
        if r.is_some() {
            self.total_updates = self.total_updates - 1;
        }
        proof {
            let c = old(self).lane(ReplicationPriority::Critical);
            let h = old(self).lane(ReplicationPriority::High);
            let n = old(self).lane(ReplicationPriority::Normal);
            let l = old(self).lane(ReplicationPriority::Low);
            if c.len() > 0 {
                assert(self.order() =~= old(self).order().drop_first());
            } else if h.len() > 0 {
                assert(old(self).order() =~= h + n + l);
                assert(self.order() =~= old(self).order().drop_first());
            } else if n.len() > 0 {
                assert(old(self).order() =~= n + l);
                assert(self.order() =~= old(self).order().drop_first());
            } else if l.len() > 0 {
                assert(old(self).order() =~= l);
                assert(self.order() =~= old(self).order().drop_first());
            } else {
                assert(self.order() =~= old(self).order());
            }
        }
        r
    }

    /// Removes up to `count` updates in pop order (most urgent first) and
    /// returns them in that order.
    pub fn drain(&mut self, count: usize) -> (updates: Vec<ReplicationUpdate>)
        requires
            old(self).wf(),
        ensures
            final(self).wf(),
            final(self).limits() == old(self).limits(),
            updates@ == old(self).order().take(vstd::math::min(count as int, old(self).spec_len() as int)),
            final(self).order() == old(self).order().skip(vstd::math::min(count as int, old(self).spec_len() as int)),
    {
        let mut updates: Vec<ReplicationUpdate> = Vec::new();
        let mut i: usize = 0;
        while i < count
            invariant
                self.wf(),
                self.limits() == old(self).limits(),
                i <= count,
                updates@.len() == i,
                i <= old(self).spec_len(),
                updates@ == old(self).order().take(i as int),
                self.order() == old(self).order().skip(i as int),
            ensures
                self.wf(),
                self.limits() == old(self).limits(),
                updates@.len() == vstd::math::min(count as int, old(self).spec_len() as int),
                updates@ == old(self).order().take(updates@.len() as int),
                self.order() == old(self).order().skip(updates@.len() as int),
            decreases count - i,
        {
            let next = self.pop();
            match next {
                Some(u) => {
                    updates.push(u);
                    i = i + 1;
                    assert(updates@ =~= old(self).order().take(i as int));
                    assert(self.order() =~= old(self).order().skip(i as int));
                },
                None => {
                    break;
                },
            }
        }
        updates
    }

    /// The oldest update of the most urgent non-empty lane, without removing it.
    pub fn peek(&self) -> (r: Option<&ReplicationUpdate>)
        ensures
            match self.head_lane() {
                None => r is None,
                Some(p) => r == Some(&self.lane(p)[0]),
            },
    {
        if self.critical.len() > 0 {
            Some(&self.critical[0])
        } else if self.high.len() > 0 {
            Some(&self.high[0])
        } else if self.normal.len() > 0 {
            Some(&self.normal[0])
        } else if self.low.len() > 0 {
            Some(&self.low[0])
        } else {
            None
        }
    }

    /// Total number of updates in all lanes.
    pub fn len(&self) -> (n: usize)
        requires
            self.wf(),
        ensures
            n == self.spec_len(),
    {
        self.total_updates
    }

    /// Returns true if all lanes are empty.
    pub fn is_empty(&self) -> (b: bool)
        requires
            self.wf(),
        ensures
            b == (self.spec_len() == 0),
    {
        self.total_updates == 0
    }

    /// Empties every lane.
    pub fn clear(&mut self)
        ensures
            final(self).wf(),
            final(self).limits() == old(self).limits(),
            forall|p: ReplicationPriority| #[trigger] final(self).lane(p) == Seq::<ReplicationUpdate>::empty(),
            final(self).spec_len() == 0,
    {
        self.critical.clear();
        self.high.clear();
        self.normal.clear();
        self.low.clear();
        self.total_updates = 0;
        assert(self.order() =~= Seq::<ReplicationUpdate>::empty());
    }

    /// Number of updates waiting in one priority's lane.
    pub fn priority_len(&self, priority: ReplicationPriority) -> (n: usize)
        ensures
            n == self.lane(priority).len(),
    {
        match priority {
            ReplicationPriority::Critical => self.critical.len(),
            ReplicationPriority::High => self.high.len(),
            ReplicationPriority::Normal => self.normal.len(),
            ReplicationPriority::Low => self.low.len(),
        }
    }
}


/// Rank of the priority of the update at position `i` of the pop order.
proof fn lemma_order_rank(q: PriorityUpdateQueue, i: int)
    requires
        q.wf(),
        0 <= i < q.order().len(),
    ensures
        ({
            let c = q.lane(ReplicationPriority::Critical).len() as int;
            let h = q.lane(ReplicationPriority::High).len() as int;
            let n = q.lane(ReplicationPriority::Normal).len() as int;
            let r = q.order()[i].priority.spec_rank();
            &&& i < c ==> r == 0
            &&& c <= i < c + h ==> r == 1
            &&& c + h <= i < c + h + n ==> r == 2
            &&& c + h + n <= i ==> r == 3
        }),
{
    let cl = q.lane(ReplicationPriority::Critical);
    let hl = q.lane(ReplicationPriority::High);
    let nl = q.lane(ReplicationPriority::Normal);
    let ll = q.lane(ReplicationPriority::Low);
    let c = cl.len() as int;
    let h = hl.len() as int;
    let n = nl.len() as int;
    if i < c {
        assert(q.order()[i] == cl[i]);
        assert(cl[i].priority == ReplicationPriority::Critical);
    } else if i < c + h {
        assert(q.order()[i] == hl[i - c]);
        assert(hl[i - c].priority == ReplicationPriority::High);
    } else if i < c + h + n {
        assert(q.order()[i] == nl[i - c - h]);
        assert(nl[i - c - h].priority == ReplicationPriority::Normal);
    } else {
        assert(q.order()[i] == ll[i - c - h - n]);
        assert(ll[i - c - h - n].priority == ReplicationPriority::Low);
    }
}

/// Updates leave the queue in order of urgency: no update leaves before a
/// more urgent one that is waiting with it.
pub proof fn law_queue_order_by_urgency(q: PriorityUpdateQueue, i: int, j: int)
    requires
        q.wf(),
        0 <= i <= j < q.order().len(),
    ensures
        q.order()[i].priority.spec_rank() <= q.order()[j].priority.spec_rank(),
{
    lemma_order_rank(q, i);
    lemma_order_rank(q, j);
}

/// A lane never grows beyond its capacity (at least one update): pushing into
/// a lane within that bound keeps it within the bound.
pub proof fn law_lane_within_capacity(lane: Seq<ReplicationUpdate>, capacity: nat, update: ReplicationUpdate)
    requires
        lane.len() <= vstd::math::max(capacity as int, 1),
    ensures
        spec_trim(lane, capacity).push(update).len() <= vstd::math::max(capacity as int, 1),
{
}

/// Pushing loses nothing but the oldest update of a full lane: the lane after
/// a push is the lane with the update appended, less its first update where
/// the lane was at its capacity.
pub proof fn law_push_drops_only_the_oldest(lane: Seq<ReplicationUpdate>, capacity: nat, update: ReplicationUpdate)
    ensures
        spec_trim(lane, capacity).push(update) == if lane.len() >= capacity && lane.len() > 0 {
            lane.push(update).drop_first()
        } else {
            lane.push(update)
        },
{
    if lane.len() >= capacity && lane.len() > 0 {
        assert(lane.drop_first().push(update) =~= lane.push(update).drop_first());
    }
}

/// No lane of a queue holds more than its capacity (at least one update),
/// whatever sequence of pushes, pops, drains and clears made the queue.
pub proof fn law_lanes_within_capacity(q: PriorityUpdateQueue, p: ReplicationPriority)
    requires
        q.wf(),
    ensures
        q.lane(p).len() <= vstd::math::max(q.capacity_of(p) as int, 1),
{
}

/// The updates that `k` calls of `pop` return, in order, on a queue whose
/// pop order is `order` (each call returns the head of the order and leaves
/// the rest, as `pop` states).
pub open spec fn spec_popped(order: Seq<ReplicationUpdate>, k: nat) -> Seq<ReplicationUpdate>
    decreases k,
{
    if k == 0 || order.len() == 0 {
        Seq::empty()
    } else {
        seq![order[0]] + spec_popped(order.drop_first(), (k - 1) as nat)
    }
}

/// The pop order left after `k` calls of `pop` on a queue whose pop order is
/// `order`.
pub open spec fn spec_left_after_pops(order: Seq<ReplicationUpdate>, k: nat) -> Seq<ReplicationUpdate>
    decreases k,
{
    if k == 0 || order.len() == 0 {
        order
    } else {
        spec_left_after_pops(order.drop_first(), (k - 1) as nat)
    }
}

/// Draining `k` updates is `k` repeated pops: it returns the updates that
/// `k` pops return, in the same order, and leaves the same queue order.
pub proof fn law_drain_is_repeated_pops(order: Seq<ReplicationUpdate>, k: nat)
    ensures
        spec_popped(order, k) == order.take(vstd::math::min(k as int, order.len() as int)),
        spec_left_after_pops(order, k) == order.skip(vstd::math::min(k as int, order.len() as int)),
    decreases k,
{
    if k == 0 || order.len() == 0 {
        assert(order.take(0) =~= Seq::<ReplicationUpdate>::empty());
        assert(order.skip(0) =~= order);
    } else {
        law_drain_is_repeated_pops(order.drop_first(), (k - 1) as nat);
        let m = vstd::math::min(k as int, order.len() as int);
        assert(vstd::math::min((k - 1) as int, order.drop_first().len() as int) == m - 1);
        assert(seq![order[0]] + order.drop_first().take(m - 1) =~= order.take(m));
        assert(order.drop_first().skip(m - 1) =~= order.skip(m));
    }
}

/// A lane with no configured limit holds 100 updates; a configured limit is
/// the lane's capacity as it stands.
pub proof fn law_lane_capacity_is_limit_or_default(limits: QueueLimits, p: ReplicationPriority)
    ensures
        limits.spec_get(p) is None ==> spec_effective_limit(limits.spec_get(p)) == 100,
        limits.spec_get(p) matches Some(n) ==> spec_effective_limit(limits.spec_get(p)) == n,
{
}

} // verus!
