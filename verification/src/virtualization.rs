//! Bookkeeping of zone virtualization.
//!
//! In dense areas the zones of many objects on one channel are merged into a
//! virtual zone. The registry records, for every virtual zone, its channel
//! and which objects it covers (with the channels each object brought), and
//! keeps an index from each object to the virtual zones covering it. Merging
//! and splitting keep the index in agreement with the zones. The geometry of
//! the zones (centres and radii) is kept beside the registry by its owner.

use crate::group_registry::{index_at, index_insert, index_remove};
use crate::types::GorcObjectId;
use crate::utils::current_timestamp;
use std::collections::{HashMap, HashSet};
use vstd::prelude::*;
use vstd::std_specs::iter::IteratorSpec;

verus! {

/// Unique identifier for virtual zones.
#[derive(Debug, Clone, Copy, PartialEq, Eq, Structural, Hash)]
pub struct VirtualZoneId(pub u64);

impl VirtualZoneId {
    /// An identifier taken from the current Unix time in seconds.
    pub fn new() -> Self {
        VirtualZoneId(current_timestamp())
    }
}

/// Reasons for splitting a virtual zone.
#[derive(Debug, Clone, Copy, PartialEq, Eq, Structural)]
pub enum SplitReason {
    ObjectsSeparated,
    TooManyObjects,
    ZoneTooLarge,
    DensityDecreased,
}

/// Request to split a virtual zone.
#[derive(Debug, Clone, Copy, PartialEq, Eq, Structural)]
pub struct ZoneSplitRequest {
    pub virtual_id: VirtualZoneId,
    pub reason: SplitReason,
}

/// Errors that can occur during virtualization operations.
#[derive(Debug)]
pub enum VirtualizationError {
    VirtualZoneNotFound(VirtualZoneId),
    EmptyZoneList,
    InvalidConfig(String),
}

/// An object zone taking part in a merge: the object and the channel of its zone.
#[derive(Debug, Clone, Copy, PartialEq, Eq, Structural)]
pub struct ZoneMember {
    pub object_id: GorcObjectId,
    pub channel: u8,
}

/// The channels that the merge members of object `o` bring, in order.
pub open spec fn spec_channels_for(members: Seq<ZoneMember>, o: u128) -> Seq<u8>
    decreases members.len(),
{
    if members.len() == 0 {
        Seq::empty()
    } else {
        let rest = spec_channels_for(members.drop_last(), o);
        if members.last().object_id.0 == o {
            rest.push(members.last().channel)
        } else {
            rest
        }
    }
}

/// The objects of a list of merge members.
pub open spec fn spec_member_objects(members: Seq<ZoneMember>) -> Set<u128> {
    members.map_values(|m: ZoneMember| m.object_id.0).to_set()
}

proof fn lemma_channels_for_nonempty(members: Seq<ZoneMember>, o: u128)
    ensures
        spec_channels_for(members, o).len() > 0 <==> spec_member_objects(members).contains(o),
    decreases members.len(),
{
    let objs = members.map_values(|m: ZoneMember| m.object_id.0);
    if members.len() > 0 {
        let init = members.drop_last();
        lemma_channels_for_nonempty(init, o);
        let init_objs = init.map_values(|m: ZoneMember| m.object_id.0);
        assert(objs =~= init_objs.push(members.last().object_id.0));
        if objs.contains(o) && members.last().object_id.0 != o {
            let j = choose|j: int| 0 <= j < objs.len() && objs[j] == o;
            assert(init_objs[j] == o);
        }
        if init_objs.contains(o) {
            let j = choose|j: int| 0 <= j < init_objs.len() && init_objs[j] == o;
            assert(objs[j] == o);
        }
        if members.last().object_id.0 == o {
            assert(objs[objs.len() - 1] == o);
        }
    } else {
        assert(objs =~= Seq::<u128>::empty());
    }
}

/// The abstract state of a virtual zone.
pub struct ZoneView {
    pub channel: u8,
    pub objects: Map<u128, Seq<u8>>,
    pub created_at: u64,
}

/// A virtual zone: its channel and the objects it covers, each with the
/// channels of the zones it brought.
#[derive(Debug)]
pub struct VirtualZoneEntry {
    pub virtual_id: VirtualZoneId,
    pub channel: u8,
    pub included_objects: HashMap<u128, Vec<u8>>,
    pub created_at: u64,
}

impl View for VirtualZoneEntry {
    type V = ZoneView;

    open spec fn view(&self) -> ZoneView {
        ZoneView {
            channel: self.channel,
            objects: Map::new(
                |o: u128| self.included_objects@.contains_key(o),
                |o: u128| self.included_objects@[o]@,
            ),
            created_at: self.created_at,
        }
    }
}

/// Counters of virtualization.
#[derive(Debug, Clone, Copy, PartialEq, Eq, Structural)]
pub struct VirtualizationCounters {
    /// Total virtual zones created
    pub total_virtual_zones_created: u64,
    /// Total virtual zones destroyed
    pub total_virtual_zones_destroyed: u64,
    /// Current active virtual zones
    pub active_virtual_zones: usize,
    /// Total objects currently virtualized
    pub total_objects_virtualized: usize,
}

/// Bookkeeping of virtual zones; see the module documentation.
pub struct VirtualZoneRegistry {
    zones: HashMap<u64, VirtualZoneEntry>,
    object_index: HashMap<u128, HashSet<u64>>,
    stats: VirtualizationCounters,
    next_id: u64,
}

/// Groups the channels of the merge members by object.
fn group_channels(members: &Vec<ZoneMember>) -> (m: HashMap<u128, Vec<u8>>)
    ensures
        forall|o: u128| #[trigger] m@.contains_key(o) <==> spec_member_objects(members@).contains(o),
        forall|o: u128| #[trigger] m@.contains_key(o) ==> m@[o]@ == spec_channels_for(members@, o),
{
    let mut m: HashMap<u128, Vec<u8>> = HashMap::new();
    let mut i: usize = 0;
    while i < members.len()
        invariant
            0 <= i <= members@.len(),
            forall|o: u128| #[trigger] m@.contains_key(o) <==> spec_channels_for(members@.take(i as int), o).len() > 0,
            forall|o: u128| #[trigger] m@.contains_key(o) ==> m@[o]@ == spec_channels_for(members@.take(i as int), o),
        decreases members@.len() - i,
    {
        let member = members[i];
        let o = member.object_id.0;
        let existing = m.remove(&o);
        match existing {
            Some(mut v) => {
                v.push(member.channel);
                m.insert(o, v);
            },
            None => {
                let mut v: Vec<u8> = Vec::new();
                v.push(member.channel);
                m.insert(o, v);
            },
        }
        proof {
            assert(members@.take(i + 1).drop_last() =~= members@.take(i as int));
            assert(members@.take(i + 1).last() == member);
            assert forall|x: u128| #[trigger] m@.contains_key(x) <==> spec_channels_for(members@.take(i + 1), x).len() > 0 by {}
            assert forall|x: u128| #[trigger] m@.contains_key(x) implies m@[x]@ == spec_channels_for(members@.take(i + 1), x) by {
                if x == o {
                    if spec_channels_for(members@.take(i as int), x).len() == 0 {
                        assert(spec_channels_for(members@.take(i as int), x) =~= Seq::<u8>::empty());
                    }
                }
            }
        }
        i = i + 1;
    }
    proof {
        assert(members@.take(members@.len() as int) =~= members@);
        assert forall|o: u128| #[trigger] m@.contains_key(o) <==> spec_member_objects(members@).contains(o) by {
            lemma_channels_for_nonempty(members@, o);
        }
    }
    m
}

/// Adds `id` to the index entry of every object in `objects`.
fn index_insert_objects(index: &mut HashMap<u128, HashSet<u64>>, objects: &HashMap<u128, Vec<u8>>, id: u64)
    ensures
        forall|o: u128| #[trigger] index_at(final(index)@, o) == if objects@.contains_key(o) {
            index_at(old(index)@, o).insert(id)
        } else {
            index_at(old(index)@, o)
        },
{
    let ghost all = objects.keys().remaining();
    let ghost start = index@;
    for k in it: objects.keys()
        invariant
            it.seq() == all,
            all.unref().to_set() == objects@.dom(),
            forall|o: u128| #[trigger] index_at(index@, o) == if all.take(it.index() as int).unref().contains(o) {
                index_at(start, o).insert(id)
            } else {
                index_at(start, o)
            },
    {
        let ghost i = it.index();
        let ghost before = index@;
        let key = *k;
        index_insert(index, key, id);
        proof {
            let prev = all.take(i as int).unref();
            let next = all.take(i + 1).unref();
            assert(next =~= prev.push(key));
            assert forall|o: u128| #[trigger] index_at(index@, o) == if next.contains(o) {
                index_at(start, o).insert(id)
            } else {
                index_at(start, o)
            } by {
                if o == key {
                    assert(next[prev.len() as int] == o);
                    if prev.contains(o) {
                        assert(index_at(index@, o) =~= index_at(start, o).insert(id));
                    } else {
                        assert(index_at(index@, o) =~= index_at(start, o).insert(id));
                    }
                } else {
                    assert(index_at(index@, o) == index_at(before, o));
                    if next.contains(o) {
                        let j = choose|j: int| 0 <= j < next.len() && next[j] == o;
                        assert(prev[j] == o);
                    }
                    if prev.contains(o) {
                        let j = choose|j: int| 0 <= j < prev.len() && prev[j] == o;
                        assert(next[j] == o);
                    }
                }
            }
        }
    }
    proof {
        assert(all.take(all.len() as int) =~= all);
        assert forall|o: u128| all.unref().contains(o) <==> objects@.contains_key(o) by {
            assert(all.unref().contains(o) <==> all.unref().to_set().contains(o));
        }
    }
}

/// Removes `id` from the index entry of every object in `objects`.
fn index_remove_objects(index: &mut HashMap<u128, HashSet<u64>>, objects: &HashMap<u128, Vec<u8>>, id: u64)
    ensures
        forall|o: u128| #[trigger] index_at(final(index)@, o) == if objects@.contains_key(o) {
            index_at(old(index)@, o).remove(id)
        } else {
            index_at(old(index)@, o)
        },
{
    let ghost all = objects.keys().remaining();
    let ghost start = index@;
    for k in it: objects.keys()
        invariant
            it.seq() == all,
            all.unref().to_set() == objects@.dom(),
            forall|o: u128| #[trigger] index_at(index@, o) == if all.take(it.index() as int).unref().contains(o) {
                index_at(start, o).remove(id)
            } else {
                index_at(start, o)
            },
    {
        let ghost i = it.index();
        let ghost before = index@;
        let key = *k;
        index_remove(index, key, id);
        proof {
            let prev = all.take(i as int).unref();
            let next = all.take(i + 1).unref();
            assert(next =~= prev.push(key));
            assert forall|o: u128| #[trigger] index_at(index@, o) == if next.contains(o) {
                index_at(start, o).remove(id)
            } else {
                index_at(start, o)
            } by {
                if o == key {
                    assert(next[prev.len() as int] == o);
                    assert(index_at(index@, o) =~= index_at(start, o).remove(id));
                } else {
                    if next.contains(o) {
                        let j = choose|j: int| 0 <= j < next.len() && next[j] == o;
                        assert(prev[j] == o);
                    }
                    if prev.contains(o) {
                        let j = choose|j: int| 0 <= j < prev.len() && prev[j] == o;
                        assert(next[j] == o);
                    }
                }
            }
        }
    }
    proof {
        assert(all.take(all.len() as int) =~= all);
        assert forall|o: u128| all.unref().contains(o) <==> objects@.contains_key(o) by {
            assert(all.unref().contains(o) <==> all.unref().to_set().contains(o));
        }
    }
}

/// The objects of a zone, as identifiers.
fn object_ids_of(objects: &HashMap<u128, Vec<u8>>) -> (v: Vec<GorcObjectId>)
    ensures
        v@.map_values(|g: GorcObjectId| g.0).to_set() == objects@.dom(),
        v@.map_values(|g: GorcObjectId| g.0).no_duplicates(),
        v@.len() == objects@.dom().len(),
{
    let mut v: Vec<GorcObjectId> = Vec::new();
    let ghost all = objects.keys().remaining();
    for x in it: objects.keys()
        invariant
            it.seq() == all,
            v@.map_values(|g: GorcObjectId| g.0) == all.take(it.index() as int).unref(),
            v@.len() == it.index(),
    {
        let ghost before = v@;
        v.push(GorcObjectId(*x));
        proof {
            assert(v@.map_values(|g: GorcObjectId| g.0) =~= before.map_values(|g: GorcObjectId| g.0).push(*x));
            assert(all.take(it.index() + 1).unref() =~= all.take(it.index() as int).unref().push(*x));
        }
    }
    assert(all.take(all.len() as int) =~= all);
    v
}

impl VirtualZoneRegistry {
    /// The virtual zones, by identifier value.
    pub closed spec fn zones_view(&self) -> Map<u64, ZoneView> {
        Map::new(|z: u64| self.zones@.contains_key(z), |z: u64| self.zones@[z]@)
    }

    /// Virtual zones covering an object, by identifier value.
    pub closed spec fn object_index(&self, o: u128) -> Set<u64> {
        index_at(self.object_index@, o)
    }

    /// The registry's counters.
    pub closed spec fn stats_view(&self) -> VirtualizationCounters {
        self.stats
    }

    /// The next identifier value the registry hands out.
    pub closed spec fn next_id_view(&self) -> u64 {
        self.next_id
    }

    /// The identifier value the next merge will use.
    pub fn next_id(&self) -> (n: u64)
        ensures
            n == self.next_id_view(),
    {
        self.next_id
    }

    /// The object index agrees with the zones, zone identifiers are below
    /// the counter, and the active-zone count is the number of zones.
    pub closed spec fn wf(&self) -> bool {
        &&& self.stats.active_virtual_zones == self.zones@.len()
        &&& forall|z: u64| #[trigger] self.zones@.contains_key(z) ==> self.zones@[z].virtual_id.0 == z && z < self.next_id
        &&& forall|o: u128, z: u64| #[trigger] self.object_index(o).contains(z) <==> (self.zones_view().contains_key(z)
            && self.zones_view()[z].objects.contains_key(o))
    }

    /// An empty registry whose first identifier is 1.
    pub fn new() -> (r: Self)
        ensures
            r.wf(),
            r.zones_view() == Map::<u64, ZoneView>::empty(),
            forall|o: u128| #[trigger] r.object_index(o) == Set::<u64>::empty(),
            r.stats_view() == (VirtualizationCounters {
                total_virtual_zones_created: 0,
                total_virtual_zones_destroyed: 0,
                active_virtual_zones: 0,
                total_objects_virtualized: 0,
            }),
            r.next_id_view() == 1,
    {
        let r = VirtualZoneRegistry {
            zones: HashMap::new(),
            object_index: HashMap::new(),
            stats: VirtualizationCounters {
                total_virtual_zones_created: 0,
                total_virtual_zones_destroyed: 0,
                active_virtual_zones: 0,
                total_objects_virtualized: 0,
            },
            next_id: 1,
        };
        assert(r.zones_view() =~= Map::<u64, ZoneView>::empty());
        r
    }

    /// Merges the zones of `members` on `channel` into a new virtual zone.
    /// The identifier is taken from the counter first; a merge of no zones
    /// then fails with `EmptyZoneList`. Otherwise the zone records each
    /// object with the channels it brought, and each object is indexed under
    /// the new zone.
    pub fn merge_zones(&mut self, channel: u8, members: &Vec<ZoneMember>, created_at: u64) -> (r: Result<VirtualZoneId, VirtualizationError>)
        requires
            old(self).wf(),
            old(self).next_id_view() < u64::MAX,
            old(self).stats_view().total_virtual_zones_created < u64::MAX,
            old(self).stats_view().active_virtual_zones < usize::MAX,
            old(self).stats_view().total_objects_virtualized + spec_member_objects(members@).len() <= usize::MAX,
        ensures
            final(self).wf(),
            final(self).next_id_view() == old(self).next_id_view() + 1,
            members@.len() == 0 ==> {
                &&& r == Err::<VirtualZoneId, VirtualizationError>(VirtualizationError::EmptyZoneList)
                &&& final(self).zones_view() == old(self).zones_view()
                &&& forall|o: u128| #[trigger] final(self).object_index(o) == old(self).object_index(o)
                &&& final(self).stats_view() == old(self).stats_view()
            },
            members@.len() > 0 ==> {
                &&& r == Ok::<VirtualZoneId, VirtualizationError>(VirtualZoneId(old(self).next_id_view()))
                &&& !old(self).zones_view().contains_key(old(self).next_id_view())
                &&& final(self).zones_view() == old(self).zones_view().insert(
                    old(self).next_id_view(),
                    ZoneView {
                        channel,
                        objects: Map::new(
                            |o: u128| spec_member_objects(members@).contains(o),
                            |o: u128| spec_channels_for(members@, o),
                        ),
                        created_at,
                    },
                )
                &&& forall|o: u128| #[trigger] final(self).object_index(o) == if spec_member_objects(members@).contains(o) {
                    old(self).object_index(o).insert(old(self).next_id_view())
                } else {
                    old(self).object_index(o)
                }
                &&& final(self).stats_view() == (VirtualizationCounters {
                    total_virtual_zones_created: (old(self).stats_view().total_virtual_zones_created + 1) as u64,
                    active_virtual_zones: (old(self).stats_view().active_virtual_zones + 1) as usize,
                    total_objects_virtualized: (old(self).stats_view().total_objects_virtualized + spec_member_objects(
                        members@,
                    ).len()) as usize,
                    ..old(self).stats_view()
                })
            },
    {
        let id = self.next_id;
        self.next_id = id + 1;
        if members.len() == 0 {
            proof {
                assert(self.zones_view() =~= old(self).zones_view());
                assert forall|o: u128, z: u64| #[trigger] self.object_index(o).contains(z) <==> (self.zones_view().contains_key(z)
                    && self.zones_view()[z].objects.contains_key(o)) by {
                    assert(old(self).object_index(o).contains(z) <==> (old(self).zones_view().contains_key(z)
                        && old(self).zones_view()[z].objects.contains_key(o)));
                }
            }
            return Err(VirtualizationError::EmptyZoneList);
        }
        let included = group_channels(members);
        let count = included.len();
        proof {
            assert(included@.dom() =~= spec_member_objects(members@));
        }
        index_insert_objects(&mut self.object_index, &included, id);
        let entry = VirtualZoneEntry { virtual_id: VirtualZoneId(id), channel, included_objects: included, created_at };
        let ghost ev = entry@;
        self.zones.insert(id, entry);
        self.stats.total_virtual_zones_created = self.stats.total_virtual_zones_created + 1;
        self.stats.active_virtual_zones = self.stats.active_virtual_zones + 1;
        self.stats.total_objects_virtualized = self.stats.total_objects_virtualized + count;
        proof {
            let zv = old(self).zones_view();
            assert(!zv.contains_key(id)) by {
                if zv.contains_key(id) {
                    assert(old(self).zones@.contains_key(id));
                }
            }
            assert(ev.objects =~= Map::new(
                |o: u128| spec_member_objects(members@).contains(o),
                |o: u128| spec_channels_for(members@, o),
            ));
            assert(self.zones_view() =~= zv.insert(id, ev));
            assert forall|o: u128, z: u64| #[trigger] self.object_index(o).contains(z) <==> (self.zones_view().contains_key(z)
                && self.zones_view()[z].objects.contains_key(o)) by {
                if z != id {
                    assert(old(self).object_index(o).contains(z) <==> (zv.contains_key(z) && zv[z].objects.contains_key(o)));
                } else {
                    assert(!old(self).object_index(o).contains(id));
                }
            }
        }
        Ok(VirtualZoneId(id))
    }

    /// Splits a virtual zone: removes it, drops it from the index entries of
    /// its objects, and returns those objects (each once). Fails with
    /// `VirtualZoneNotFound` for an unknown zone.
    pub fn split_virtual_zone(&mut self, virtual_id: VirtualZoneId) -> (r: Result<Vec<GorcObjectId>, VirtualizationError>)
        requires
            old(self).wf(),
            old(self).zones_view().contains_key(virtual_id.0) ==> old(self).stats_view().total_virtual_zones_destroyed < u64::MAX,
        ensures
            final(self).wf(),
            final(self).next_id_view() == old(self).next_id_view(),
            final(self).zones_view() == old(self).zones_view().remove(virtual_id.0),
            forall|o: u128| #[trigger] final(self).object_index(o) == old(self).object_index(o).remove(virtual_id.0),
            !old(self).zones_view().contains_key(virtual_id.0) ==> {
                &&& r == Err::<Vec<GorcObjectId>, VirtualizationError>(VirtualizationError::VirtualZoneNotFound(virtual_id))
                &&& final(self).stats_view() == old(self).stats_view()
            },
            old(self).zones_view().contains_key(virtual_id.0) ==> {
                let objs = old(self).zones_view()[virtual_id.0].objects.dom();
                &&& r is Ok
                &&& r->Ok_0@.map_values(|g: GorcObjectId| g.0).to_set() == objs
                &&& r->Ok_0@.map_values(|g: GorcObjectId| g.0).no_duplicates()
                &&& final(self).stats_view() == (VirtualizationCounters {
                    total_virtual_zones_destroyed: (old(self).stats_view().total_virtual_zones_destroyed + 1) as u64,
                    active_virtual_zones: (old(self).stats_view().active_virtual_zones - 1) as usize,
                    total_objects_virtualized: if old(self).stats_view().total_objects_virtualized >= objs.len() {
                        (old(self).stats_view().total_objects_virtualized - objs.len()) as usize
                    } else {
                        0
                    },
                    ..old(self).stats_view()
                })
            },
    {
        let taken = self.zones.remove(&virtual_id.0);
        match taken {
            None => {
                proof {
                    assert(self.zones_view() =~= old(self).zones_view());
                    assert(old(self).zones_view().remove(virtual_id.0) =~= old(self).zones_view());
                    assert forall|o: u128| #[trigger] self.object_index(o) == old(self).object_index(o).remove(virtual_id.0) by {
                        assert(!old(self).object_index(o).contains(virtual_id.0));
                        assert(old(self).object_index(o).remove(virtual_id.0) =~= old(self).object_index(o));
                    }
                }
                Err(VirtualizationError::VirtualZoneNotFound(virtual_id))
            },
            Some(entry) => {
                let liberated = object_ids_of(&entry.included_objects);
                index_remove_objects(&mut self.object_index, &entry.included_objects, virtual_id.0);
                let count = liberated.len();
                self.stats.total_virtual_zones_destroyed = self.stats.total_virtual_zones_destroyed + 1;
                self.stats.active_virtual_zones = if self.stats.active_virtual_zones > 0 {
                    self.stats.active_virtual_zones - 1
                } else {
                    0
                };
                self.stats.total_objects_virtualized = if self.stats.total_objects_virtualized >= count {
                    self.stats.total_objects_virtualized - count
                } else {
                    0
                };
                proof {
                    let zv = old(self).zones_view();
                    assert(zv[virtual_id.0] == entry@);
                    assert(entry@.objects.dom() =~= entry.included_objects@.dom());
                    assert(self.zones_view() =~= zv.remove(virtual_id.0));
                    assert forall|o: u128| #[trigger] self.object_index(o) == old(self).object_index(o).remove(virtual_id.0) by {
                        if !entry.included_objects@.contains_key(o) {
                            assert(!old(self).object_index(o).contains(virtual_id.0));
                            assert(old(self).object_index(o).remove(virtual_id.0) =~= old(self).object_index(o));
                        }
                    }
                    assert forall|o: u128, z: u64| #[trigger] self.object_index(o).contains(z) <==> (self.zones_view().contains_key(z)
                        && self.zones_view()[z].objects.contains_key(o)) by {
                        assert(old(self).object_index(o).contains(z) <==> (zv.contains_key(z) && zv[z].objects.contains_key(o)));
                    }
                }
                Ok(liberated)
            },
        }
    }

    /// The objects a virtual zone covers (each once); empty for an unknown zone.
    pub fn get_virtual_zone_objects(&self, virtual_id: VirtualZoneId) -> (v: Vec<GorcObjectId>)
        ensures
            v@.map_values(|g: GorcObjectId| g.0).to_set() == if self.zones_view().contains_key(virtual_id.0) {
                self.zones_view()[virtual_id.0].objects.dom()
            } else {
                Set::<u128>::empty()
            },
            v@.map_values(|g: GorcObjectId| g.0).no_duplicates(),
    {
        match self.zones.get(&virtual_id.0) {
            Some(entry) => {
                proof {
                    assert(entry@.objects.dom() =~= entry.included_objects@.dom());
                }
                object_ids_of(&entry.included_objects)
            },
            None => {
                let v: Vec<GorcObjectId> = Vec::new();
                assert(v@.map_values(|g: GorcObjectId| g.0).to_set() =~= Set::<u128>::empty());
                v
            },
        }
    }

    /// The virtual zones covering an object.
    pub fn zones_of_object(&self, object_id: GorcObjectId) -> (v: Vec<VirtualZoneId>)
        ensures
            v@.map_values(|z: VirtualZoneId| z.0).to_set() == self.object_index(object_id.0),
            v@.map_values(|z: VirtualZoneId| z.0).no_duplicates(),
    {
        match self.object_index.get(&object_id.0) {
            Some(set) => {
                let mut v: Vec<VirtualZoneId> = Vec::new();
                let ghost all = set.iter().remaining();
                for x in it: set.iter()
                    invariant
                        it.seq() == all,
                        v@.map_values(|z: VirtualZoneId| z.0) == all.take(it.index() as int).unref(),
                {
                    let ghost before = v@;
                    v.push(VirtualZoneId(*x));
                    proof {
                        assert(v@.map_values(|z: VirtualZoneId| z.0) =~= before.map_values(|z: VirtualZoneId| z.0).push(*x));
                        assert(all.take(it.index() + 1).unref() =~= all.take(it.index() as int).unref().push(*x));
                    }
                }
                assert(all.take(all.len() as int) =~= all);
                v
            },
            None => {
                let v: Vec<VirtualZoneId> = Vec::new();
                assert(v@.map_values(|z: VirtualZoneId| z.0).to_set() =~= Set::<u64>::empty());
                v
            },
        }
    }

    /// The channel of a virtual zone, if it exists.
    pub fn zone_channel(&self, virtual_id: VirtualZoneId) -> (c: Option<u8>)
        ensures
            c == if self.zones_view().contains_key(virtual_id.0) {
                Some(self.zones_view()[virtual_id.0].channel)
            } else {
                None::<u8>
            },
    {
        match self.zones.get(&virtual_id.0) {
            Some(entry) => Some(entry.channel),
            None => None,
        }
    }

    /// Number of objects a virtual zone covers (0 for an unknown zone).
    pub fn zone_object_count(&self, virtual_id: VirtualZoneId) -> (n: usize)
        ensures
            n == if self.zones_view().contains_key(virtual_id.0) {
                self.zones_view()[virtual_id.0].objects.dom().len()
            } else {
                0
            },
    {
        match self.zones.get(&virtual_id.0) {
            Some(entry) => {
                proof {
                    assert(entry@.objects.dom() =~= entry.included_objects@.dom());
                }
                entry.included_objects.len()
            },
            None => 0,
        }
    }

    /// The registry's counters.
    pub fn get_stats(&self) -> (s: VirtualizationCounters)
        ensures
            s == self.stats_view(),
    {
        self.stats
    }
}


/// The object index of a registry agrees with its zones: an object is
/// indexed under a virtual zone exactly when the zone covers it, and every
/// zone identifier lies below the counter (so the next one is fresh).
pub proof fn law_object_index_agrees_with_zones(r: VirtualZoneRegistry, o: u128, z: u64)
    requires
        r.wf(),
    ensures
        r.object_index(o).contains(z) <==> (r.zones_view().contains_key(z) && r.zones_view()[z].objects.contains_key(o)),
        r.zones_view().contains_key(z) ==> z < r.next_id_view(),
{
    if r.zones_view().contains_key(z) {
        assert(r.zones@.contains_key(z));
    }
}

/// Merging zones into a new virtual zone and splitting that zone again
/// leaves the zones and every object's index entry as they were.
pub proof fn law_merge_then_split_restores(r: VirtualZoneRegistry, members: Seq<ZoneMember>, zone: ZoneView, o: u128)
    requires
        r.wf(),
    ensures
        ({
            let id = r.next_id_view();
            &&& r.zones_view().insert(id, zone).remove(id) == r.zones_view()
            &&& (if spec_member_objects(members).contains(o) {
                r.object_index(o).insert(id)
            } else {
                r.object_index(o)
            }).remove(id) == r.object_index(o)
        }),
{
    let id = r.next_id_view();
    law_object_index_agrees_with_zones(r, o, id);
    assert(r.zones_view().insert(id, zone).remove(id) =~= r.zones_view());
    assert(r.object_index(o).insert(id).remove(id) =~= r.object_index(o));
    assert(r.object_index(o).remove(id) =~= r.object_index(o));
}


/// Merging zones into a new virtual zone and splitting that zone again
/// leaves the active-zone count and the count of virtualized objects as they
/// were; the created and destroyed counts each go up by one. (The counters
/// below are those that `merge_zones` and then `split_virtual_zone` state,
/// the split handing back the merged zone's objects.)
pub proof fn law_merge_then_split_restores_counters(r: VirtualZoneRegistry, members: Seq<ZoneMember>)
    requires
        r.wf(),
        members.len() > 0,
        r.stats_view().total_virtual_zones_created < u64::MAX,
        r.stats_view().total_virtual_zones_destroyed < u64::MAX,
        r.stats_view().active_virtual_zones < usize::MAX,
        r.stats_view().total_objects_virtualized + spec_member_objects(members).len() <= usize::MAX,
    ensures
        ({
            let c = r.stats_view();
            let k = spec_member_objects(members).len();
            let merged = VirtualizationCounters {
                total_virtual_zones_created: (c.total_virtual_zones_created + 1) as u64,
                active_virtual_zones: (c.active_virtual_zones + 1) as usize,
                total_objects_virtualized: (c.total_objects_virtualized + k) as usize,
                ..c
            };
            let split = VirtualizationCounters {
                total_virtual_zones_destroyed: (merged.total_virtual_zones_destroyed + 1) as u64,
                active_virtual_zones: (merged.active_virtual_zones - 1) as usize,
                total_objects_virtualized: if merged.total_objects_virtualized >= k {
                    (merged.total_objects_virtualized - k) as usize
                } else {
                    0
                },
                ..merged
            };
            split == VirtualizationCounters {
                total_virtual_zones_created: (c.total_virtual_zones_created + 1) as u64,
                total_virtual_zones_destroyed: (c.total_virtual_zones_destroyed + 1) as u64,
                ..c
            }
        }),
{
}

/// A zone made by merging `members` is found by a later split as long as no
/// split of it came between (every other merge and split changes only its
/// own identifier): the split then hands back exactly the objects of the
/// members, each once, and a second split of the zone finds nothing.
pub proof fn law_split_after_merge_frees_members(
    zones: Map<u64, ZoneView>,
    id: u64,
    channel: u8,
    members: Seq<ZoneMember>,
    created_at: u64,
)
    ensures
        ({
            let zone = ZoneView {
                channel,
                objects: Map::new(
                    |o: u128| spec_member_objects(members).contains(o),
                    |o: u128| spec_channels_for(members, o),
                ),
                created_at,
            };
            &&& zones.insert(id, zone).contains_key(id)
            &&& zones.insert(id, zone)[id].objects.dom() == spec_member_objects(members)
            &&& !zones.insert(id, zone).remove(id).contains_key(id)
        }),
{
    let zone = ZoneView {
        channel,
        objects: Map::new(|o: u128| spec_member_objects(members).contains(o), |o: u128| spec_channels_for(members, o)),
        created_at,
    };
    assert(zones.insert(id, zone)[id].objects.dom() =~= spec_member_objects(members));
}

/// Merging zones and then splitting the new virtual zone, as `merge_zones`
/// and `split_virtual_zone` state their successful runs (`r0` before the
/// merge, `r1` after it, `r2` after the split, `freed` the split's result):
/// the split hands back each object of the merged zones once, the zones and
/// the object index are as before the merge, the zone is gone (so a second
/// split fails with `VirtualZoneNotFound`), and of the counters only the
/// created and destroyed counts have moved, by one each.
pub proof fn law_merge_then_split(
    r0: VirtualZoneRegistry,
    r1: VirtualZoneRegistry,
    r2: VirtualZoneRegistry,
    channel: u8,
    members: Seq<ZoneMember>,
    created_at: u64,
    freed: Seq<GorcObjectId>,
)
    requires
        r0.wf(),
        members.len() > 0,
        r0.stats_view().total_virtual_zones_created < u64::MAX,
        r0.stats_view().total_virtual_zones_destroyed < u64::MAX,
        r0.stats_view().active_virtual_zones < usize::MAX,
        r0.stats_view().total_objects_virtualized + spec_member_objects(members).len() <= usize::MAX,
        r1.zones_view() == r0.zones_view().insert(
            r0.next_id_view(),
            ZoneView {
                channel,
                objects: Map::new(
                    |o: u128| spec_member_objects(members).contains(o),
                    |o: u128| spec_channels_for(members, o),
                ),
                created_at,
            },
        ),
        forall|o: u128| #[trigger] r1.object_index(o) == if spec_member_objects(members).contains(o) {
            r0.object_index(o).insert(r0.next_id_view())
        } else {
            r0.object_index(o)
        },
        r1.stats_view() == (VirtualizationCounters {
            total_virtual_zones_created: (r0.stats_view().total_virtual_zones_created + 1) as u64,
            active_virtual_zones: (r0.stats_view().active_virtual_zones + 1) as usize,
            total_objects_virtualized: (r0.stats_view().total_objects_virtualized + spec_member_objects(members).len()) as usize,
            ..r0.stats_view()
        }),
        r2.zones_view() == r1.zones_view().remove(r0.next_id_view()),
        forall|o: u128| #[trigger] r2.object_index(o) == r1.object_index(o).remove(r0.next_id_view()),
        freed.map_values(|g: GorcObjectId| g.0).to_set() == r1.zones_view()[r0.next_id_view()].objects.dom(),
        freed.map_values(|g: GorcObjectId| g.0).no_duplicates(),
        ({
            let objs = r1.zones_view()[r0.next_id_view()].objects.dom();
            r2.stats_view() == (VirtualizationCounters {
                total_virtual_zones_destroyed: (r1.stats_view().total_virtual_zones_destroyed + 1) as u64,
                active_virtual_zones: (r1.stats_view().active_virtual_zones - 1) as usize,
                total_objects_virtualized: if r1.stats_view().total_objects_virtualized >= objs.len() {
                    (r1.stats_view().total_objects_virtualized - objs.len()) as usize
                } else {
                    0
                },
                ..r1.stats_view()
            })
        }),
    ensures
        freed.map_values(|g: GorcObjectId| g.0).to_set() == spec_member_objects(members),
        freed.map_values(|g: GorcObjectId| g.0).no_duplicates(),
        r2.zones_view() == r0.zones_view(),
        forall|o: u128| #[trigger] r2.object_index(o) == r0.object_index(o),
        !r2.zones_view().contains_key(r0.next_id_view()),
        r2.stats_view() == (VirtualizationCounters {
            total_virtual_zones_created: (r0.stats_view().total_virtual_zones_created + 1) as u64,
            total_virtual_zones_destroyed: (r0.stats_view().total_virtual_zones_destroyed + 1) as u64,
            ..r0.stats_view()
        }),
{
    let id = r0.next_id_view();
    let zone = ZoneView {
        channel,
        objects: Map::new(|o: u128| spec_member_objects(members).contains(o), |o: u128| spec_channels_for(members, o)),
        created_at,
    };
    assert(r1.zones_view()[id].objects.dom() =~= spec_member_objects(members));
    law_merge_then_split_restores(r0, members, zone, 0);
    assert forall|o: u128| #[trigger] r2.object_index(o) == r0.object_index(o) by {
        law_merge_then_split_restores(r0, members, zone, o);
    }
    law_merge_then_split_restores_counters(r0, members);
}

/// A virtual zone made by merging covers exactly the objects of the merged
/// zones, each with the channels of its zones in merge order; so splitting it
/// hands back exactly those objects.
pub proof fn law_merged_zone_covers_members(members: Seq<ZoneMember>, o: u128)
    ensures
        Map::new(|x: u128| spec_member_objects(members).contains(x), |x: u128| spec_channels_for(members, x)).dom()
            == spec_member_objects(members),
        spec_member_objects(members).contains(o) <==> spec_channels_for(members, o).len() > 0,
{
    lemma_channels_for_nonempty(members, o);
    assert(Map::new(|x: u128| spec_member_objects(members).contains(x), |x: u128| spec_channels_for(members, x)).dom()
        =~= spec_member_objects(members));
}

} // verus!
