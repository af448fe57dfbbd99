//! Scheduling of object replication updates.
//!
//! The scheduler remembers, for every tracked object, when it was last
//! replicated, and which objects were modified since. An object needs an
//! update when it is dirty or when its last update is more than
//! [`MIN_UPDATE_INTERVAL_MS`] old (about 30 updates per second at least).
//! Times are milliseconds of a monotonic clock read by the caller.

use crate::network::spec_elapsed;
use crate::priority::{CompressionType, ReplicationPriority};
use crate::queue::ReplicationUpdate;
use crate::types::GorcObjectId;
use std::collections::{HashMap, HashSet};
use vstd::prelude::*;
use vstd::std_specs::iter::IteratorSpec;

verus! {

/// Age in milliseconds beyond which a clean object is due for an update.
pub const MIN_UPDATE_INTERVAL_MS: u64 = 33;

/// Counters of an update scheduler.
#[derive(Debug, Clone, Copy, PartialEq, Eq, Structural)]
pub struct SchedulerCounters {
    /// Number of objects being tracked
    pub objects_tracked: usize,
    /// Number of objects marked as dirty
    pub dirty_objects: usize,
    /// Total objects updated since start
    pub objects_updated: u64,
}

/// Simple update scheduler for determining when objects need updates.
#[derive(Debug)]
pub struct UpdateScheduler {
    object_update_times: HashMap<u128, u64>,
    dirty_objects: HashSet<u128>,
    objects_updated: u64,
}

/// The clean tracked objects whose last update is more than
/// [`MIN_UPDATE_INTERVAL_MS`] before `now`.
pub open spec fn spec_stale_objects(times: Map<u128, u64>, dirty: Set<u128>, now: u64) -> Set<u128> {
    Set::new(
        |o: u128|
            times.contains_key(o) && spec_elapsed(times[o], now) > MIN_UPDATE_INTERVAL_MS && !dirty.contains(o),
    )
}

/// The identifier values of a sequence of object identifiers.
pub open spec fn object_values(v: Seq<GorcObjectId>) -> Seq<u128> {
    v.map_values(|g: GorcObjectId| g.0)
}

impl UpdateScheduler {
    /// Last update time of each tracked object, by identifier value.
    pub closed spec fn update_times(&self) -> Map<u128, u64> {
        self.object_update_times@
    }

    /// Objects modified since their last update, by identifier value.
    pub closed spec fn dirty(&self) -> Set<u128> {
        self.dirty_objects@
    }

    /// Number of updates recorded since the scheduler was made.
    pub closed spec fn updated_count(&self) -> u64 {
        self.objects_updated
    }

    /// Creates a scheduler that tracks no object.
    pub fn new() -> (s: Self)
        ensures
            s.update_times() == Map::<u128, u64>::empty(),
            s.dirty() == Set::<u128>::empty(),
            s.updated_count() == 0,
    {
        UpdateScheduler { object_update_times: HashMap::new(), dirty_objects: HashSet::new(), objects_updated: 0 }
    }

    /// Starts tracking an object at clock reading `now_ms`; it is dirty until
    /// its first update.
    pub fn add_object(&mut self, object_id: GorcObjectId, now_ms: u64)
        ensures
            final(self).update_times() == old(self).update_times().insert(object_id.0, now_ms),
            final(self).dirty() == old(self).dirty().insert(object_id.0),
            final(self).updated_count() == old(self).updated_count(),
    {
        self.object_update_times.insert(object_id.0, now_ms);
        self.dirty_objects.insert(object_id.0);
    }

    /// Stops tracking an object.
    pub fn remove_object(&mut self, object_id: GorcObjectId)
        ensures
            final(self).update_times() == old(self).update_times().remove(object_id.0),
            final(self).dirty() == old(self).dirty().remove(object_id.0),
            final(self).updated_count() == old(self).updated_count(),
    {
        self.object_update_times.remove(&object_id.0);
        self.dirty_objects.remove(&object_id.0);
    }

    /// Marks an object as needing an update.
    pub fn mark_object_dirty(&mut self, object_id: GorcObjectId)
        ensures
            final(self).update_times() == old(self).update_times(),
            final(self).dirty() == old(self).dirty().insert(object_id.0),
            final(self).updated_count() == old(self).updated_count(),
    {
        self.dirty_objects.insert(object_id.0);
    }

    /// Records that an object was updated at clock reading `now_ms`.
    pub fn mark_object_updated(&mut self, object_id: GorcObjectId, now_ms: u64)
        requires
            old(self).updated_count() < u64::MAX,
        ensures
            final(self).update_times() == old(self).update_times().insert(object_id.0, now_ms),
            final(self).dirty() == old(self).dirty().remove(object_id.0),
            final(self).updated_count() == old(self).updated_count() + 1,
    {
        self.object_update_times.insert(object_id.0, now_ms);
        self.dirty_objects.remove(&object_id.0);
        self.objects_updated = self.objects_updated + 1;
    }

    /// The objects that need an update at clock reading `now_ms`: every dirty
    /// object, then every clean tracked object last updated more than
    /// [`MIN_UPDATE_INTERVAL_MS`] ago. Each object is listed once.
    pub fn get_objects_needing_updates(&self, now_ms: u64) -> (v: Vec<GorcObjectId>)
        ensures
            v@.map_values(|g: GorcObjectId| g.0).to_set() == self.dirty().union(
                spec_stale_objects(self.update_times(), self.dirty(), now_ms),
            ),
            v@.map_values(|g: GorcObjectId| g.0).no_duplicates(),
    {
        let mut v: Vec<GorcObjectId> = Vec::new();
        let ghost dirty_all = self.dirty_objects.iter().remaining();
        for x in it: self.dirty_objects.iter()
            invariant
                it.seq() == dirty_all,
                v@.map_values(|g: GorcObjectId| g.0) == dirty_all.take(it.index() as int).unref(),
        {
            let ghost before = v@;
            v.push(GorcObjectId(*x));
            proof {
                assert(v@.map_values(|g: GorcObjectId| g.0) =~= before.map_values(|g: GorcObjectId| g.0).push(*x));
                assert(dirty_all.take(it.index() + 1).unref() =~= dirty_all.take(it.index() as int).unref().push(*x));
            }
        }
        proof {
            assert(dirty_all.take(dirty_all.len() as int) =~= dirty_all);
            assert forall|o: u128| #[trigger] object_values(v@).contains(o) <==> self.dirty_objects@.contains(o) by {
                assert(object_values(v@).contains(o) <==> object_values(v@).to_set().contains(o));
            }
        }
        let ghost keys_all = self.object_update_times.keys().remaining();
        for k in it: self.object_update_times.keys()
            invariant
                it.seq() == keys_all,
                keys_all.unref().to_set() == self.object_update_times@.dom(),
                keys_all.no_duplicates(),
                object_values(v@).no_duplicates(),
                forall|o: u128| #[trigger] object_values(v@).contains(o) <==> (self.dirty_objects@.contains(o)
                    || (keys_all.take(it.index() as int).unref().contains(o) && spec_stale_objects(
                    self.object_update_times@,
                    self.dirty_objects@,
                    now_ms,
                ).contains(o))),
        {
            let ghost i = it.index();
            let ghost before = object_values(v@);
            let key = *k;
            proof {
                assert(keys_all.unref().to_set().contains(key)) by {
                    assert(keys_all.unref()[i] == key);
                }
            }
            let last = *self.object_update_times.get(&key).unwrap();
            let elapsed: u64 = if now_ms >= last {
                now_ms - last
            } else {
                0
            };
            let stale = elapsed > MIN_UPDATE_INTERVAL_MS && !self.dirty_objects.contains(&key);
            proof {
                let prev = keys_all.take(i as int).unref();
                let next = keys_all.take(i + 1).unref();
                assert(next =~= prev.push(key));
                assert(!prev.contains(key)) by {
                    if prev.contains(key) {
                        let j = choose|j: int| 0 <= j < prev.len() && prev[j] == key;
                        assert(keys_all[j] == keys_all[i as int]);
                    }
                }
                assert forall|o: u128| #[trigger] next.contains(o) <==> (prev.contains(o) || o == key) by {
                    if next.contains(o) && o != key {
                        let j = choose|j: int| 0 <= j < next.len() && next[j] == o;
                        assert(prev[j] == o);
                    }
                    if prev.contains(o) {
                        let j = choose|j: int| 0 <= j < prev.len() && prev[j] == o;
                        assert(next[j] == o);
                    }
                    if o == key {
                        assert(next[i as int] == o);
                    }
                }
            }
            if stale {
                v.push(GorcObjectId(key));
                proof {
                    let now_ids = object_values(v@);
                    assert(now_ids =~= before.push(key));
                    assert(!before.contains(key));
                    assert forall|a: int, b: int| 0 <= a < b < now_ids.len() implies now_ids[a] != now_ids[b] by {
                        if b == now_ids.len() - 1 {
                            assert(now_ids[a] == before[a]);
                        } else {
                            assert(now_ids[a] == before[a] && now_ids[b] == before[b]);
                        }
                    }
                    assert forall|o: u128| #[trigger] now_ids.contains(o) <==> (before.contains(o) || o == key) by {
                        if now_ids.contains(o) && o != key {
                            let j = choose|j: int| 0 <= j < now_ids.len() && now_ids[j] == o;
                            assert(before[j] == o);
                        }
                        if before.contains(o) {
                            let j = choose|j: int| 0 <= j < before.len() && before[j] == o;
                            assert(now_ids[j] == o);
                        }
                        if o == key {
                            assert(now_ids[before.len() as int] == o);
                        }
                    }
                }
            }
        }
        proof {
            assert(keys_all.take(keys_all.len() as int) =~= keys_all);
            let ids = object_values(v@);
            let want = self.dirty().union(spec_stale_objects(self.update_times(), self.dirty(), now_ms));
            assert forall|o: u128| ids.to_set().contains(o) <==> want.contains(o) by {
                assert(ids.to_set().contains(o) <==> ids.contains(o));
                assert(keys_all.unref().contains(o) <==> keys_all.unref().to_set().contains(o));
            }
            assert(ids.to_set() =~= want);
        }
        v
    }

    /// The scheduler's counters.
    pub fn get_stats(&self) -> (s: SchedulerCounters)
        ensures
            s.objects_tracked == self.update_times().dom().len(),
            s.dirty_objects == self.dirty().len(),
            s.objects_updated == self.updated_count(),
    {
        SchedulerCounters {
            objects_tracked: self.object_update_times.len(),
            dirty_objects: self.dirty_objects.len(),
            objects_updated: self.objects_updated,
        }
    }
}

/// An object that was just updated is not due again until more than
/// [`MIN_UPDATE_INTERVAL_MS`] have passed, unless it is marked dirty.
pub proof fn law_updated_object_waits(times: Map<u128, u64>, dirty: Set<u128>, o: u128, updated_at: u64, now: u64)
    requires
        spec_elapsed(updated_at, now) <= MIN_UPDATE_INTERVAL_MS,
    ensures
        !dirty.remove(o).union(spec_stale_objects(times.insert(o, updated_at), dirty.remove(o), now)).contains(o),
{
}

/// An object that is no longer tracked is never due.
pub proof fn law_removed_object_is_never_due(times: Map<u128, u64>, dirty: Set<u128>, o: u128, now: u64)
    ensures
        !dirty.remove(o).union(spec_stale_objects(times.remove(o), dirty.remove(o), now)).contains(o),
{
}

/// A dirty object is always due, however recently it was updated.
pub proof fn law_dirty_object_is_due(times: Map<u128, u64>, dirty: Set<u128>, o: u128, now: u64)
    requires
        dirty.contains(o),
    ensures
        dirty.union(spec_stale_objects(times, dirty, now)).contains(o),
{
}

/// Hands out the sequence numbers of generated replication updates: 1, 2, 3
/// and so on.
#[derive(Debug, Clone, Copy, PartialEq, Eq, Structural)]
pub struct UpdateSequencer {
    pub sequence_counter: u32,
}

impl UpdateSequencer {
    /// A sequencer whose first number is 1.
    pub fn new() -> (s: Self)
        ensures
            s.sequence_counter == 0,
    {
        UpdateSequencer { sequence_counter: 0 }
    }

    /// Advances the counter and returns its new value.
    pub fn next(&mut self) -> (n: u32)
        requires
            old(self).sequence_counter < u32::MAX,
        ensures
            n == old(self).sequence_counter + 1,
            final(self).sequence_counter == n,
    {
        self.sequence_counter = self.sequence_counter + 1;
        self.sequence_counter
    }
}

/// The update that the replication tick generates for an object: its
/// serialized core-layer data on channel 0 at Normal priority, uncompressed.
pub fn core_layer_update(
    object_id: GorcObjectId,
    object_type: String,
    data: Vec<u8>,
    sequence: u32,
    timestamp_ms: u64,
) -> (u: ReplicationUpdate)
    ensures
        u.object_id == object_id,
        u.object_type == object_type,
        u.channel == 0,
        u.data == data,
        u.priority == ReplicationPriority::Normal,
        u.sequence == sequence,
        u.timestamp == timestamp_ms,
        u.compression == CompressionType::Uncompressed,
{
    ReplicationUpdate {
        object_id,
        object_type,
        channel: 0,
        data,
        priority: ReplicationPriority::Normal,
        sequence,
        timestamp: timestamp_ms,
        compression: CompressionType::Uncompressed,
    }
}

} // verus!
