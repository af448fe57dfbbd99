//! Bookkeeping of multicast groups and LOD rooms.
//!
//! The registry keeps the groups, the identifiers of LOD rooms, an index from
//! each player to the groups and rooms it joined, and an index from each
//! channel to the groups that handle it. Every operation keeps the indexes in
//! agreement with the groups; identifiers come from the registry's own counter
//! and are never reused.

use crate::lod::MulticastGroupId;
use crate::multicast::{GroupView, MulticastError, MulticastGroup, DEFAULT_MAX_MEMBERS};
use crate::lod::GroupStats;
use crate::priority::ReplicationPriority;
use crate::types::PlayerId;
use std::collections::{HashMap, HashSet};
use vstd::prelude::*;
use vstd::std_specs::iter::IteratorSpec;

verus! {

/// The set stored under a key of an index, or the empty set.
pub open spec fn index_at<K>(m: Map<K, HashSet<u64>>, k: K) -> Set<u64> {
    if m.contains_key(k) {
        m[k]@
    } else {
        Set::empty()
    }
}

/// Adds `gid` to the set stored under `key`.
pub(crate) fn index_insert<K: std::hash::Hash + Eq>(index: &mut HashMap<K, HashSet<u64>>, key: K, gid: u64)
    requires
        vstd::std_specs::hash::obeys_key_model::<K>(),
    ensures
        index_at(final(index)@, key) == index_at(old(index)@, key).insert(gid),
        forall|k: K| k != key ==> #[trigger] index_at(final(index)@, k) == index_at(old(index)@, k),
{
    let existing = index.remove(&key);
    match existing {
        Some(mut set) => {
            set.insert(gid);
            index.insert(key, set);
        },
        None => {
            let mut set: HashSet<u64> = HashSet::new();
            set.insert(gid);
            index.insert(key, set);
        },
    }
}

/// Removes `gid` from the set stored under `key`, dropping the key once its
/// set is empty.
pub(crate) fn index_remove<K: std::hash::Hash + Eq>(index: &mut HashMap<K, HashSet<u64>>, key: K, gid: u64)
    requires
        vstd::std_specs::hash::obeys_key_model::<K>(),
    ensures
        index_at(final(index)@, key) == index_at(old(index)@, key).remove(gid),
        forall|k: K| k != key ==> #[trigger] index_at(final(index)@, k) == index_at(old(index)@, k),
{
    let existing = index.remove(&key);
    match existing {
        Some(mut set) => {
            set.remove(&gid);
            if !set.is_empty() {
                index.insert(key, set);
            } else {
                assert(set@ =~= Set::<u64>::empty());
            }
        },
        None => {},
    }
}

/// Adds `gid` under every key of `keys`.
fn index_insert_all<K: std::hash::Hash + Eq + Copy>(index: &mut HashMap<K, HashSet<u64>>, keys: &HashSet<K>, gid: u64)
    requires
        vstd::std_specs::hash::obeys_key_model::<K>(),
    ensures
        forall|k: K| #[trigger] index_at(final(index)@, k) == if keys@.contains(k) {
            index_at(old(index)@, k).insert(gid)
        } else {
            index_at(old(index)@, k)
        },
{
    let ghost all = keys.iter().remaining();
    let ghost start = index@;
    for x in it: keys.iter()
        invariant
            vstd::std_specs::hash::obeys_key_model::<K>(),
            it.seq() == all,
            all.unref().to_set() == keys@,
            forall|k: K| #[trigger] index_at(index@, k) == if all.take(it.index() as int).unref().contains(k) {
                index_at(start, k).insert(gid)
            } else {
                index_at(start, k)
            },
    {
        let ghost i = it.index();
        index_insert(index, *x, gid);
        proof {
            let prev = all.take(i as int).unref();
            let next = all.take(i + 1).unref();
            assert(next =~= prev.push(*x));
            assert forall|k: K| #[trigger] index_at(index@, k) == if next.contains(k) {
                index_at(start, k).insert(gid)
            } else {
                index_at(start, k)
            } by {
                if k == *x {
                    assert(next[prev.len() as int] == k);
                    if prev.contains(k) {
                        assert(index_at(index@, k) =~= index_at(start, k).insert(gid));
                    }
                } else {
                    if next.contains(k) {
                        let j = choose|j: int| 0 <= j < next.len() && next[j] == k;
                        assert(prev[j] == k);
                    }
                    if prev.contains(k) {
                        let j = choose|j: int| 0 <= j < prev.len() && prev[j] == k;
                        assert(next[j] == k);
                    }
                }
            }
        }
    }
    proof {
        assert(all.take(all.len() as int) =~= all);
        assert forall|k: K| all.unref().contains(k) <==> keys@.contains(k) by {
            assert(all.unref().contains(k) <==> all.unref().to_set().contains(k));
        }
    }
}

/// Removes `gid` from under every key of `keys`.
fn index_remove_all<K: std::hash::Hash + Eq + Copy>(index: &mut HashMap<K, HashSet<u64>>, keys: &HashSet<K>, gid: u64)
    requires
        vstd::std_specs::hash::obeys_key_model::<K>(),
    ensures
        forall|k: K| #[trigger] index_at(final(index)@, k) == if keys@.contains(k) {
            index_at(old(index)@, k).remove(gid)
        } else {
            index_at(old(index)@, k)
        },
{
    let ghost all = keys.iter().remaining();
    let ghost start = index@;
    for x in it: keys.iter()
        invariant
            vstd::std_specs::hash::obeys_key_model::<K>(),
            it.seq() == all,
            all.unref().to_set() == keys@,
            forall|k: K| #[trigger] index_at(index@, k) == if all.take(it.index() as int).unref().contains(k) {
                index_at(start, k).remove(gid)
            } else {
                index_at(start, k)
            },
    {
        let ghost i = it.index();
        index_remove(index, *x, gid);
        proof {
            let prev = all.take(i as int).unref();
            let next = all.take(i + 1).unref();
            assert(next =~= prev.push(*x));
            assert forall|k: K| #[trigger] index_at(index@, k) == if next.contains(k) {
                index_at(start, k).remove(gid)
            } else {
                index_at(start, k)
            } by {
                if k == *x {
                    assert(next[prev.len() as int] == k);
                    if prev.contains(k) {
                        assert(index_at(index@, k) =~= index_at(start, k).remove(gid));
                    }
                } else {
                    if next.contains(k) {
                        let j = choose|j: int| 0 <= j < next.len() && next[j] == k;
                        assert(prev[j] == k);
                    }
                    if prev.contains(k) {
                        let j = choose|j: int| 0 <= j < prev.len() && prev[j] == k;
                        assert(next[j] == k);
                    }
                }
            }
        }
    }
    proof {
        assert(all.take(all.len() as int) =~= all);
        assert forall|k: K| all.unref().contains(k) <==> keys@.contains(k) by {
            assert(all.unref().contains(k) <==> all.unref().to_set().contains(k));
        }
    }
}

/// The identifiers in a set of group identifier values, as a vector.
fn group_ids_of(s: &HashSet<u64>) -> (v: Vec<MulticastGroupId>)
    ensures
        v@.map_values(|g: MulticastGroupId| g.0).to_set() == s@,
        v@.map_values(|g: MulticastGroupId| g.0).no_duplicates(),
        v@.len() == s@.len(),
{
    let mut v: Vec<MulticastGroupId> = Vec::new();
    let ghost all = s.iter().remaining();
    for x in it: s.iter()
        invariant
            it.seq() == all,
            v@.map_values(|g: MulticastGroupId| g.0) == all.take(it.index() as int).unref(),
            v@.len() == it.index(),
    {
        let ghost before = v@;
        v.push(MulticastGroupId(*x));
        proof {
            assert(v@.map_values(|g: MulticastGroupId| g.0) =~= before.map_values(|g: MulticastGroupId| g.0).push(*x));
            assert(all.take(it.index() + 1).unref() =~= all.take(it.index() as int).unref().push(*x));
        }
    }
    assert(all.take(all.len() as int) =~= all);
    v
}

/// Counters of a multicast registry.
#[derive(Debug, Clone, Copy, PartialEq, Eq, Structural)]
pub struct MulticastStats {
    /// Number of multicast groups and LOD rooms
    pub total_groups: usize,
    /// Number of group memberships
    pub total_players: usize,
    /// Total messages multicast
    pub messages_sent: u64,
    /// Total bytes multicast
    pub bytes_sent: u64,
    /// Groups created since start
    pub groups_created: u64,
    /// Groups destroyed since start
    pub groups_destroyed: u64,
}

/// Bookkeeping of multicast groups and LOD rooms; see the module documentation.
pub struct MulticastRegistry {
    groups: HashMap<u64, MulticastGroup>,
    lod_rooms: HashSet<u64>,
    player_groups: HashMap<u128, HashSet<u64>>,
    channel_groups: HashMap<u8, HashSet<u64>>,
    stats: MulticastStats,
    next_id: u64,
}

impl MulticastRegistry {
    /// The groups, by identifier value.
    pub closed spec fn groups_view(&self) -> Map<u64, GroupView> {
        Map::new(|g: u64| self.groups@.contains_key(g), |g: u64| self.groups@[g]@)
    }

    /// Identifier values of the registered LOD rooms.
    pub closed spec fn rooms_view(&self) -> Set<u64> {
        self.lod_rooms@
    }

    /// Groups and rooms a player joined, by identifier value.
    pub closed spec fn player_index(&self, p: u128) -> Set<u64> {
        index_at(self.player_groups@, p)
    }

    /// Groups handling a channel, by identifier value.
    pub closed spec fn channel_index(&self, c: u8) -> Set<u64> {
        index_at(self.channel_groups@, c)
    }

    /// The registry's counters.
    pub closed spec fn stats_view(&self) -> MulticastStats {
        self.stats
    }

    /// The next identifier value the registry hands out.
    pub closed spec fn next_id_view(&self) -> u64 {
        self.next_id
    }

    /// Player `p` is a member of group `g`.
    pub open spec fn is_member(&self, g: u64, p: u128) -> bool {
        self.groups_view().contains_key(g) && self.groups_view()[g].members.contains(p)
    }

    /// The registry's indexes agree with its groups, identifiers are below
    /// the counter and never shared by a group and a room, and the group
    /// count is the number of groups and rooms.
    pub closed spec fn wf(&self) -> bool {
        &&& self.lod_rooms@.finite()
        &&& self.stats.total_groups == self.groups@.len() + self.lod_rooms@.len()
        &&& forall|g: u64| #[trigger] self.groups_view().contains_key(g) ==> {
            &&& self.groups_view()[g].id.0 == g
            &&& g < self.next_id
            &&& !self.lod_rooms@.contains(g)
        }
        &&& forall|r: u64| #[trigger] self.lod_rooms@.contains(r) ==> r < self.next_id
        &&& forall|g: u64, p: u128|
            self.groups_view().contains_key(g) && #[trigger] self.groups_view()[g].members.contains(p)
                ==> self.player_index(p).contains(g)
        &&& forall|p: u128, g: u64|
            #[trigger] self.player_index(p).contains(g) ==> g < self.next_id && (self.groups_view().contains_key(g)
                ==> self.groups_view()[g].members.contains(p))
        &&& forall|g: u64, c: u8|
            self.groups_view().contains_key(g) && #[trigger] self.groups_view()[g].channels.contains(c)
                ==> self.channel_index(c).contains(g)
        &&& forall|c: u8, g: u64|
            #[trigger] self.channel_index(c).contains(g) ==> self.groups_view().contains_key(g)
                && self.groups_view()[g].channels.contains(c)
    }

    /// An empty registry whose first identifier is 1.
    pub fn new() -> (r: Self)
        ensures
            r.wf(),
            r.groups_view() == Map::<u64, GroupView>::empty(),
            r.rooms_view() == Set::<u64>::empty(),
            forall|p: u128| #[trigger] r.player_index(p) == Set::<u64>::empty(),
            forall|c: u8| #[trigger] r.channel_index(c) == Set::<u64>::empty(),
            r.stats_view() == (MulticastStats {
                total_groups: 0,
                total_players: 0,
                messages_sent: 0,
                bytes_sent: 0,
                groups_created: 0,
                groups_destroyed: 0,
            }),
            r.next_id_view() == 1,
    {
        let r = MulticastRegistry {
            groups: HashMap::new(),
            lod_rooms: HashSet::new(),
            player_groups: HashMap::new(),
            channel_groups: HashMap::new(),
            stats: MulticastStats {
                total_groups: 0,
                total_players: 0,
                messages_sent: 0,
                bytes_sent: 0,
                groups_created: 0,
                groups_destroyed: 0,
            },
            next_id: 1,
        };
        assert(r.groups_view() =~= Map::<u64, GroupView>::empty());
        r
    }
}


impl MulticastRegistry {
    /// Creates a new group handling `channels`, registers it under a fresh
    /// identifier and indexes it under each of its channels.
    pub fn create_group(&mut self, name: String, channels: HashSet<u8>, priority: ReplicationPriority) -> (id: MulticastGroupId)
        requires
            old(self).wf(),
            old(self).next_id_view() < u64::MAX,
            old(self).stats_view().total_groups < usize::MAX,
            old(self).stats_view().groups_created < u64::MAX,
        ensures
            final(self).wf(),
            id.0 == old(self).next_id_view(),
            !old(self).groups_view().contains_key(id.0),
            !old(self).rooms_view().contains(id.0),
            final(self).next_id_view() == old(self).next_id_view() + 1,
            final(self).groups_view() == old(self).groups_view().insert(
                id.0,
                GroupView {
                    id,
                    name: name@,
                    members: Set::empty(),
                    channels: channels@,
                    priority,
                    max_members: DEFAULT_MAX_MEMBERS,
                    stats: GroupStats::spec_zero(),
                },
            ),
            final(self).rooms_view() == old(self).rooms_view(),
            forall|p: u128| #[trigger] final(self).player_index(p) == old(self).player_index(p),
            forall|c: u8| #[trigger] final(self).channel_index(c) == if channels@.contains(c) {
                old(self).channel_index(c).insert(id.0)
            } else {
                old(self).channel_index(c)
            },
            final(self).stats_view() == (MulticastStats {
                total_groups: (old(self).stats_view().total_groups + 1) as usize,
                groups_created: (old(self).stats_view().groups_created + 1) as u64,
                ..old(self).stats_view()
            }),
    {
        let gid = self.next_id;
        proof {
            if old(self).groups@.contains_key(gid) {
                assert(old(self).groups_view().contains_key(gid));
            }
        }
        index_insert_all(&mut self.channel_groups, &channels, gid);
        let ghost chans = channels@;
        let group = MulticastGroup::with_id(MulticastGroupId(gid), name, channels, priority);
        self.groups.insert(gid, group);
        self.next_id = gid + 1;
        self.stats.total_groups = self.stats.total_groups + 1;
        self.stats.groups_created = self.stats.groups_created + 1;
        proof {
            let gv = old(self).groups_view();
            assert(self.groups_view() =~= gv.insert(gid, group@));
            assert forall|g: u64, c: u8|
                self.groups_view().contains_key(g) && #[trigger] self.groups_view()[g].channels.contains(c)
                    implies self.channel_index(c).contains(g) by {
                if g != gid {
                    assert(gv[g].channels.contains(c));
                }
            }
            assert forall|c: u8, g: u64| #[trigger] self.channel_index(c).contains(g) implies self.groups_view().contains_key(g)
                && self.groups_view()[g].channels.contains(c) by {
                if g != gid {
                    assert(old(self).channel_index(c).contains(g));
                } else if !chans.contains(c) {
                    assert(old(self).channel_index(c).contains(gid));
                }
            }
            assert forall|g: u64, p: u128|
                self.groups_view().contains_key(g) && #[trigger] self.groups_view()[g].members.contains(p)
                    implies self.player_index(p).contains(g) by {
                if g != gid {
                    assert(gv[g].members.contains(p));
                }
            }
            assert forall|p: u128, g: u64| #[trigger] self.player_index(p).contains(g) implies g < self.next_id && (
                self.groups_view().contains_key(g) ==> self.groups_view()[g].members.contains(p)) by {
                assert(old(self).player_index(p).contains(g));
            }
        }
        MulticastGroupId(gid)
    }

    /// Registers a new LOD room under a fresh identifier. The room's contents
    /// are kept by its owner; the registry keeps the identifier and counts
    /// the room among its groups.
    pub fn create_lod_room(&mut self) -> (id: MulticastGroupId)
        requires
            old(self).wf(),
            old(self).next_id_view() < u64::MAX,
            old(self).stats_view().total_groups < usize::MAX,
        ensures
            final(self).wf(),
            id.0 == old(self).next_id_view(),
            !old(self).groups_view().contains_key(id.0),
            !old(self).rooms_view().contains(id.0),
            final(self).next_id_view() == old(self).next_id_view() + 1,
            final(self).rooms_view() == old(self).rooms_view().insert(id.0),
            final(self).groups_view() == old(self).groups_view(),
            forall|p: u128| #[trigger] final(self).player_index(p) == old(self).player_index(p),
            forall|c: u8| #[trigger] final(self).channel_index(c) == old(self).channel_index(c),
            final(self).stats_view() == (MulticastStats {
                total_groups: (old(self).stats_view().total_groups + 1) as usize,
                ..old(self).stats_view()
            }),
    {
        let gid = self.next_id;
        proof {
            if old(self).lod_rooms@.contains(gid) {
                assert(gid < old(self).next_id);
            }
        }
        self.lod_rooms.insert(gid);
        self.next_id = gid + 1;
        self.stats.total_groups = self.stats.total_groups + 1;
        proof {
            assert(self.groups_view() =~= old(self).groups_view());
            assert forall|g: u64| #[trigger] self.groups_view().contains_key(g) implies {
                &&& self.groups_view()[g].id.0 == g
                &&& g < self.next_id
                &&& !self.lod_rooms@.contains(g)
            } by {
                assert(old(self).groups_view().contains_key(g));
            }
            assert forall|r: u64| #[trigger] self.lod_rooms@.contains(r) implies r < self.next_id by {
                if r != gid {
                    assert(old(self).lod_rooms@.contains(r));
                }
            }
            assert forall|p: u128, g: u64| #[trigger] self.player_index(p).contains(g) implies g < self.next_id && (
                self.groups_view().contains_key(g) ==> self.groups_view()[g].members.contains(p)) by {
                assert(old(self).player_index(p).contains(g));
            }
            assert(forall|g: u64, p: u128|
                self.groups_view().contains_key(g) && #[trigger] self.groups_view()[g].members.contains(p)
                    ==> self.player_index(p).contains(g));
            assert(forall|g: u64, c: u8|
                self.groups_view().contains_key(g) && #[trigger] self.groups_view()[g].channels.contains(c)
                    ==> self.channel_index(c).contains(g));
            assert forall|c: u8, g: u64| #[trigger] self.channel_index(c).contains(g) implies self.groups_view().contains_key(g)
                && self.groups_view()[g].channels.contains(c) by {
                assert(old(self).channel_index(c).contains(g));
            }
        }
        MulticastGroupId(gid)
    }
}

impl MulticastRegistry {
    /// Adds a player to a group and indexes the membership. Fails with
    /// `GroupNotFound` for an unknown group and `GroupCapacityExceeded` for a
    /// full one; otherwise returns whether the player was newly added.
    pub fn add_player_to_group(&mut self, player_id: PlayerId, group_id: MulticastGroupId) -> (r: Result<bool, MulticastError>)
        requires
            old(self).wf(),
            old(self).stats_view().total_players < usize::MAX,
            old(self).groups_view().contains_key(group_id.0) ==> old(self).groups_view()[group_id.0].stats.member_additions < u64::MAX,
        ensures
            final(self).wf(),
            final(self).next_id_view() == old(self).next_id_view(),
            final(self).rooms_view() == old(self).rooms_view(),
            forall|c: u8| #[trigger] final(self).channel_index(c) == old(self).channel_index(c),
            !old(self).groups_view().contains_key(group_id.0) ==> {
                &&& r matches Err(MulticastError::GroupNotFound { id }) && id == group_id
                &&& final(self).groups_view() == old(self).groups_view()
                &&& forall|p: u128| #[trigger] final(self).player_index(p) == old(self).player_index(p)
                &&& final(self).stats_view() == old(self).stats_view()
            },
            old(self).groups_view().contains_key(group_id.0) ==> {
                let g = old(self).groups_view()[group_id.0];
                if g.members.len() >= g.max_members {
                    &&& r matches Err(MulticastError::GroupCapacityExceeded)
                    &&& final(self).groups_view() == old(self).groups_view()
                    &&& forall|p: u128| #[trigger] final(self).player_index(p) == old(self).player_index(p)
                    &&& final(self).stats_view() == old(self).stats_view()
                } else {
                    let added = !g.members.contains(player_id.0);
                    &&& r == Ok::<bool, MulticastError>(added)
                    &&& final(self).groups_view() == old(self).groups_view().insert(
                        group_id.0,
                        GroupView {
                            members: g.members.insert(player_id.0),
                            stats: GroupStats {
                                member_additions: if added {
                                    (g.stats.member_additions + 1) as u64
                                } else {
                                    g.stats.member_additions
                                },
                                ..g.stats
                            },
                            ..g
                        },
                    )
                    &&& final(self).player_index(player_id.0) == old(self).player_index(player_id.0).insert(group_id.0)
                    &&& forall|p: u128| p != player_id.0 ==> #[trigger] final(self).player_index(p) == old(self).player_index(p)
                    &&& final(self).stats_view() == (MulticastStats {
                        total_players: if added {
                            (old(self).stats_view().total_players + 1) as usize
                        } else {
                            old(self).stats_view().total_players
                        },
                        ..old(self).stats_view()
                    })
                }
            },
    {
        let gid = group_id.0;
        let taken = self.groups.remove(&gid);
        match taken {
            None => {
                proof {
                    assert(self.groups@ =~= old(self).groups@);
                    assert(self.groups_view() =~= old(self).groups_view());
                    Self::lemma_wf_same_views(old(self), self);
                }
                Err(MulticastError::GroupNotFound { id: group_id })
            },
            Some(mut group) => {
                let result = group.add_member(player_id);
                self.groups.insert(gid, group);
                proof {
                    assert(self.groups_view() =~= old(self).groups_view().insert(gid, group@));
                }
                match result {
                    Ok(true) => {
                        index_insert(&mut self.player_groups, player_id.0, gid);
                        self.stats.total_players = self.stats.total_players + 1;
                        proof {
                            let gv = old(self).groups_view();
                            assert forall|g: u64| #[trigger] self.groups_view().contains_key(g) implies {
                                &&& self.groups_view()[g].id.0 == g
                                &&& g < self.next_id
                                &&& !self.lod_rooms@.contains(g)
                            } by {
                                assert(gv.contains_key(g));
                            }
                            assert forall|g: u64, p: u128|
                                self.groups_view().contains_key(g) && #[trigger] self.groups_view()[g].members.contains(p)
                                    implies self.player_index(p).contains(g) by {
                                if !(g == gid && p == player_id.0) {
                                    assert(gv[g].members.contains(p));
                                }
                            }
                            assert forall|p: u128, g: u64| #[trigger] self.player_index(p).contains(g) implies g < self.next_id && (
                                self.groups_view().contains_key(g) ==> self.groups_view()[g].members.contains(p)) by {
                                if !(p == player_id.0 && g == gid) {
                                    assert(old(self).player_index(p).contains(g));
                                } else {
                                    assert(gv.contains_key(gid));
                                }
                            }
                            assert forall|g: u64, c: u8|
                                self.groups_view().contains_key(g) && #[trigger] self.groups_view()[g].channels.contains(c)
                                    implies self.channel_index(c).contains(g) by {
                                assert(gv[g].channels.contains(c));
                            }
                            assert forall|c: u8, g: u64| #[trigger] self.channel_index(c).contains(g) implies self.groups_view().contains_key(g)
                                && self.groups_view()[g].channels.contains(c) by {
                                assert(old(self).channel_index(c).contains(g));
                            }
                        }
                        Ok(true)
                    },
                    Ok(false) => {
                        proof {
                            let gv = old(self).groups_view();
                            assert(gv[gid].members.insert(player_id.0) =~= gv[gid].members);
                            assert(self.groups_view() =~= gv);
                            assert(old(self).player_index(player_id.0).contains(gid));
                            assert(old(self).player_index(player_id.0).insert(gid) =~= old(self).player_index(player_id.0));
                            Self::lemma_wf_same_views(old(self), self);
                        }
                        Ok(false)
                    },
                    Err(e) => {
                        proof {
                            assert(self.groups_view() =~= old(self).groups_view());
                            Self::lemma_wf_same_views(old(self), self);
                        }
                        Err(e)
                    },
                }
            },
        }
    }

    /// Removes a player from a group and drops the membership from the index.
    /// Fails with `GroupNotFound` for an unknown group; otherwise returns
    /// whether the player was a member.
    pub fn remove_player_from_group(&mut self, player_id: PlayerId, group_id: MulticastGroupId) -> (r: Result<bool, MulticastError>)
        requires
            old(self).wf(),
            old(self).groups_view().contains_key(group_id.0) ==> old(self).groups_view()[group_id.0].stats.member_removals < u64::MAX,
        ensures
            final(self).wf(),
            final(self).next_id_view() == old(self).next_id_view(),
            final(self).rooms_view() == old(self).rooms_view(),
            forall|c: u8| #[trigger] final(self).channel_index(c) == old(self).channel_index(c),
            !old(self).groups_view().contains_key(group_id.0) ==> {
                &&& r matches Err(MulticastError::GroupNotFound { id }) && id == group_id
                &&& final(self).groups_view() == old(self).groups_view()
                &&& forall|p: u128| #[trigger] final(self).player_index(p) == old(self).player_index(p)
                &&& final(self).stats_view() == old(self).stats_view()
            },
            old(self).groups_view().contains_key(group_id.0) ==> {
                let g = old(self).groups_view()[group_id.0];
                let removed = g.members.contains(player_id.0);
                &&& r == Ok::<bool, MulticastError>(removed)
                &&& final(self).groups_view() == old(self).groups_view().insert(
                    group_id.0,
                    GroupView {
                        members: g.members.remove(player_id.0),
                        stats: GroupStats {
                            member_removals: if removed {
                                (g.stats.member_removals + 1) as u64
                            } else {
                                g.stats.member_removals
                            },
                            ..g.stats
                        },
                        ..g
                    },
                )
                &&& final(self).player_index(player_id.0) == old(self).player_index(player_id.0).remove(group_id.0)
                &&& forall|p: u128| p != player_id.0 ==> #[trigger] final(self).player_index(p) == old(self).player_index(p)
                &&& final(self).stats_view() == (MulticastStats {
                    total_players: if removed && old(self).stats_view().total_players > 0 {
                        (old(self).stats_view().total_players - 1) as usize
                    } else if removed {
                        0
                    } else {
                        old(self).stats_view().total_players
                    },
                    ..old(self).stats_view()
                })
            },
    {
        let gid = group_id.0;
        let taken = self.groups.remove(&gid);
        match taken {
            None => {
                proof {
                    assert(self.groups@ =~= old(self).groups@);
                    assert(self.groups_view() =~= old(self).groups_view());
                    Self::lemma_wf_same_views(old(self), self);
                }
                Err(MulticastError::GroupNotFound { id: group_id })
            },
            Some(mut group) => {
                let removed = group.remove_member(player_id);
                self.groups.insert(gid, group);
                proof {
                    assert(self.groups_view() =~= old(self).groups_view().insert(gid, group@));
                }
                if removed {
                    index_remove(&mut self.player_groups, player_id.0, gid);
                    self.stats.total_players = if self.stats.total_players > 0 {
                        self.stats.total_players - 1
                    } else {
                        0
                    };
                } else {
                    proof {
                        assert(!old(self).player_index(player_id.0).contains(gid));
                        assert(old(self).player_index(player_id.0).remove(gid) =~= old(self).player_index(player_id.0));
                    }
                }
                proof {
                    let gv = old(self).groups_view();
                    assert forall|g: u64| #[trigger] self.groups_view().contains_key(g) implies {
                        &&& self.groups_view()[g].id.0 == g
                        &&& g < self.next_id
                        &&& !self.lod_rooms@.contains(g)
                    } by {
                        assert(gv.contains_key(g));
                    }
                    assert forall|g: u64, p: u128|
                        self.groups_view().contains_key(g) && #[trigger] self.groups_view()[g].members.contains(p)
                            implies self.player_index(p).contains(g) by {
                        assert(gv[g].members.contains(p));
                    }
                    assert forall|p: u128, g: u64| #[trigger] self.player_index(p).contains(g) implies g < self.next_id && (
                        self.groups_view().contains_key(g) ==> self.groups_view()[g].members.contains(p)) by {
                        assert(old(self).player_index(p).contains(g));
                    }
                    assert forall|g: u64, c: u8|
                        self.groups_view().contains_key(g) && #[trigger] self.groups_view()[g].channels.contains(c)
                            implies self.channel_index(c).contains(g) by {
                        assert(gv[g].channels.contains(c));
                    }
                    assert forall|c: u8, g: u64| #[trigger] self.channel_index(c).contains(g) implies self.groups_view().contains_key(g)
                        && self.groups_view()[g].channels.contains(c) by {
                        assert(old(self).channel_index(c).contains(g));
                    }
                }
                Ok(removed)
            },
        }
    }

    /// Links a player to a registered LOD room in the player index. Fails
    /// with `GroupNotFound` when no such room is registered.
    pub fn add_player_to_lod_room(&mut self, player_id: PlayerId, room_id: MulticastGroupId) -> (r: Result<(), MulticastError>)
        requires
            old(self).wf(),
        ensures
            final(self).wf(),
            final(self).next_id_view() == old(self).next_id_view(),
            final(self).rooms_view() == old(self).rooms_view(),
            final(self).groups_view() == old(self).groups_view(),
            final(self).stats_view() == old(self).stats_view(),
            forall|c: u8| #[trigger] final(self).channel_index(c) == old(self).channel_index(c),
            r is Ok <==> old(self).rooms_view().contains(room_id.0),
            r matches Err(e) ==> e matches MulticastError::GroupNotFound { id } && id == room_id,
            forall|p: u128| #[trigger] final(self).player_index(p) == if r is Ok && p == player_id.0 {
                old(self).player_index(p).insert(room_id.0)
            } else {
                old(self).player_index(p)
            },
    {
        if self.lod_rooms.contains(&room_id.0) {
            index_insert(&mut self.player_groups, player_id.0, room_id.0);
            proof {
                assert(self.groups_view() =~= old(self).groups_view());
                assert forall|g: u64, p: u128|
                    self.groups_view().contains_key(g) && #[trigger] self.groups_view()[g].members.contains(p)
                        implies self.player_index(p).contains(g) by {
                    assert(old(self).groups_view()[g].members.contains(p));
                }
                assert forall|p: u128, g: u64| #[trigger] self.player_index(p).contains(g) implies g < self.next_id && (
                    self.groups_view().contains_key(g) ==> self.groups_view()[g].members.contains(p)) by {
                    if !(p == player_id.0 && g == room_id.0) {
                        assert(old(self).player_index(p).contains(g));
                    }
                }
                assert forall|g: u64| #[trigger] self.groups_view().contains_key(g) implies {
                    &&& self.groups_view()[g].id.0 == g
                    &&& g < self.next_id
                    &&& !self.lod_rooms@.contains(g)
                } by {
                    assert(old(self).groups_view().contains_key(g));
                }
                assert forall|c: u8, g: u64| #[trigger] self.channel_index(c).contains(g) implies self.groups_view().contains_key(g)
                    && self.groups_view()[g].channels.contains(c) by {
                    assert(old(self).channel_index(c).contains(g));
                }
            }
            Ok(())
        } else {
            Err(MulticastError::GroupNotFound { id: room_id })
        }
    }
}

impl MulticastRegistry {
    proof fn lemma_wf_same_views(a: &Self, b: &Self)
        requires
            a.wf(),
            a.groups_view() == b.groups_view(),
            a.lod_rooms@ == b.lod_rooms@,
            a.player_groups@ == b.player_groups@,
            a.channel_groups@ == b.channel_groups@,
            a.next_id == b.next_id,
            a.stats.total_groups == b.stats.total_groups,
        ensures
            b.wf(),
    {
        assert(a.groups@.dom() =~= b.groups@.dom()) by {
            assert forall|g: u64| a.groups@.dom().contains(g) <==> b.groups@.dom().contains(g) by {
                assert(a.groups_view().contains_key(g) <==> a.groups@.contains_key(g));
                assert(b.groups_view().contains_key(g) <==> b.groups@.contains_key(g));
            }
        }
        assert forall|p: u128| #[trigger] b.player_index(p) == a.player_index(p) by {}
        assert forall|c: u8| #[trigger] b.channel_index(c) == a.channel_index(c) by {}
    }
}

impl MulticastRegistry {
    /// Destroys a group (dropping it from both indexes) or a LOD room. Fails
    /// with `GroupNotFound` when the identifier names neither.
    pub fn destroy_group(&mut self, group_id: MulticastGroupId) -> (r: Result<(), MulticastError>)
        requires
            old(self).wf(),
            old(self).groups_view().contains_key(group_id.0) ==> old(self).stats_view().groups_destroyed < u64::MAX,
        ensures
            final(self).wf(),
            final(self).next_id_view() == old(self).next_id_view(),
            r is Ok <==> (old(self).groups_view().contains_key(group_id.0) || old(self).rooms_view().contains(group_id.0)),
            r matches Err(e) ==> e matches MulticastError::GroupNotFound { id } && id == group_id,
            final(self).groups_view() == old(self).groups_view().remove(group_id.0),
            final(self).rooms_view() == old(self).rooms_view().remove(group_id.0),
            forall|p: u128| #[trigger] final(self).player_index(p) == if old(self).groups_view().contains_key(group_id.0) {
                old(self).player_index(p).remove(group_id.0)
            } else {
                old(self).player_index(p)
            },
            forall|c: u8| #[trigger] final(self).channel_index(c) == old(self).channel_index(c).remove(group_id.0),
            final(self).stats_view() == if old(self).groups_view().contains_key(group_id.0) {
                MulticastStats {
                    total_groups: (old(self).stats_view().total_groups - 1) as usize,
                    groups_destroyed: (old(self).stats_view().groups_destroyed + 1) as u64,
                    total_players: if old(self).stats_view().total_players >= old(self).groups_view()[group_id.0].members.len() {
                        (old(self).stats_view().total_players - old(self).groups_view()[group_id.0].members.len()) as usize
                    } else {
                        0
                    },
                    ..old(self).stats_view()
                }
            } else if old(self).rooms_view().contains(group_id.0) {
                MulticastStats {
                    total_groups: (old(self).stats_view().total_groups - 1) as usize,
                    ..old(self).stats_view()
                }
            } else {
                old(self).stats_view()
            },
    {
        let gid = group_id.0;
        let taken = self.groups.remove(&gid);
        match taken {
            Some(group) => {
                index_remove_all(&mut self.channel_groups, &group.channels, gid);
                index_remove_all(&mut self.player_groups, &group.members, gid);
                let member_count = group.members.len();
                self.stats.total_groups = if self.stats.total_groups > 0 {
                    self.stats.total_groups - 1
                } else {
                    0
                };
                self.stats.groups_destroyed = self.stats.groups_destroyed + 1;
                self.stats.total_players = if self.stats.total_players >= member_count {
                    self.stats.total_players - member_count
                } else {
                    0
                };
                proof {
                    let gv = old(self).groups_view();
                    assert(gv.contains_key(gid) && gv[gid] == group@);
                    assert(self.groups_view() =~= gv.remove(gid));
                    assert(!old(self).lod_rooms@.contains(gid));
                    assert(self.lod_rooms@ =~= old(self).lod_rooms@.remove(gid));
                    assert forall|c: u8| #[trigger] self.channel_index(c) == old(self).channel_index(c).remove(gid) by {
                        if !group@.channels.contains(c) {
                            if old(self).channel_index(c).contains(gid) {
                                assert(gv[gid].channels.contains(c));
                            }
                            assert(old(self).channel_index(c).remove(gid) =~= old(self).channel_index(c));
                        }
                    }
                    assert forall|p: u128| #[trigger] self.player_index(p) == old(self).player_index(p).remove(gid) by {
                        if !group@.members.contains(p) {
                            if old(self).player_index(p).contains(gid) {
                                assert(gv[gid].members.contains(p));
                            }
                            assert(old(self).player_index(p).remove(gid) =~= old(self).player_index(p));
                        }
                    }
                    assert forall|g: u64| #[trigger] self.groups_view().contains_key(g) implies {
                        &&& self.groups_view()[g].id.0 == g
                        &&& g < self.next_id
                        &&& !self.lod_rooms@.contains(g)
                    } by {
                        assert(gv.contains_key(g));
                    }
                    assert forall|r: u64| #[trigger] self.lod_rooms@.contains(r) implies r < self.next_id by {
                        assert(old(self).lod_rooms@.contains(r));
                    }
                    assert forall|g: u64, p: u128|
                        self.groups_view().contains_key(g) && #[trigger] self.groups_view()[g].members.contains(p)
                            implies self.player_index(p).contains(g) by {
                        assert(gv[g].members.contains(p));
                    }
                    assert forall|p: u128, g: u64| #[trigger] self.player_index(p).contains(g) implies g < self.next_id && (
                        self.groups_view().contains_key(g) ==> self.groups_view()[g].members.contains(p)) by {
                        assert(old(self).player_index(p).contains(g));
                    }
                    assert forall|g: u64, c: u8|
                        self.groups_view().contains_key(g) && #[trigger] self.groups_view()[g].channels.contains(c)
                            implies self.channel_index(c).contains(g) by {
                        assert(gv[g].channels.contains(c));
                    }
                    assert forall|c: u8, g: u64| #[trigger] self.channel_index(c).contains(g) implies self.groups_view().contains_key(g)
                        && self.groups_view()[g].channels.contains(c) by {
                        assert(old(self).channel_index(c).contains(g));
                    }
                }
                Ok(())
            },
            None => {
                proof {
                    assert(self.groups_view() =~= old(self).groups_view());
                    assert(old(self).groups_view().remove(gid) =~= old(self).groups_view());
                    assert forall|c: u8| #[trigger] self.channel_index(c) == old(self).channel_index(c).remove(gid) by {
                        if old(self).channel_index(c).contains(gid) {
                            assert(old(self).groups_view().contains_key(gid));
                        }
                        assert(old(self).channel_index(c).remove(gid) =~= old(self).channel_index(c));
                    }
                }
                if self.lod_rooms.remove(&gid) {
                    self.stats.total_groups = if self.stats.total_groups > 0 {
                        self.stats.total_groups - 1
                    } else {
                        0
                    };
                    proof {
                        assert forall|g: u64| #[trigger] self.groups_view().contains_key(g) implies {
                            &&& self.groups_view()[g].id.0 == g
                            &&& g < self.next_id
                            &&& !self.lod_rooms@.contains(g)
                        } by {
                            assert(old(self).groups_view().contains_key(g));
                        }
                        assert forall|r: u64| #[trigger] self.lod_rooms@.contains(r) implies r < self.next_id by {
                            assert(old(self).lod_rooms@.contains(r));
                        }
                        assert forall|g: u64, p: u128|
                            self.groups_view().contains_key(g) && #[trigger] self.groups_view()[g].members.contains(p)
                                implies self.player_index(p).contains(g) by {
                            assert(old(self).groups_view()[g].members.contains(p));
                        }
                        assert forall|p: u128, g: u64| #[trigger] self.player_index(p).contains(g) implies g < self.next_id && (
                            self.groups_view().contains_key(g) ==> self.groups_view()[g].members.contains(p)) by {
                            assert(old(self).player_index(p).contains(g));
                        }
                        assert forall|c: u8, g: u64| #[trigger] self.channel_index(c).contains(g) implies self.groups_view().contains_key(g)
                            && self.groups_view()[g].channels.contains(c) by {
                            assert(old(self).channel_index(c).contains(g));
                        }
                    }
                    Ok(())
                } else {
                    proof {
                        assert(self.lod_rooms@ =~= old(self).lod_rooms@.remove(gid));
                        assert(self.lod_rooms@ =~= old(self).lod_rooms@);
                        Self::lemma_wf_same_views(old(self), self);
                    }
                    Err(MulticastError::GroupNotFound { id: group_id })
                }
            },
        }
    }
}

impl MulticastRegistry {
    /// Removes a player from every group it joined and drops its index
    /// entry; returns how many groups it left. The player's index may also
    /// name LOD rooms, which are not groups: where it does, the call fails
    /// with `GroupNotFound` for such an identifier (the owner of the rooms
    /// removes the player from them).
    pub fn remove_player(&mut self, player_id: PlayerId) -> (r: Result<usize, MulticastError>)
        requires
            old(self).wf(),
            forall|g: u64| #[trigger] old(self).groups_view().contains_key(g) ==> old(self).groups_view()[g].stats.member_removals < u64::MAX,
        ensures
            final(self).wf(),
            final(self).next_id_view() == old(self).next_id_view(),
            final(self).rooms_view() == old(self).rooms_view(),
            final(self).groups_view().dom() == old(self).groups_view().dom(),
            forall|c: u8| #[trigger] final(self).channel_index(c) == old(self).channel_index(c),
            r is Ok <==> (forall|g: u64| #[trigger] old(self).player_index(player_id.0).contains(g) ==> old(self).groups_view().contains_key(g)),
            r matches Err(e) ==> e matches MulticastError::GroupNotFound { id } && old(self).player_index(player_id.0).contains(id.0)
                && !old(self).groups_view().contains_key(id.0),
            r matches Ok(n) ==> {
                &&& n == old(self).player_index(player_id.0).len()
                &&& final(self).player_index(player_id.0) == Set::<u64>::empty()
                &&& forall|q: u128| q != player_id.0 ==> #[trigger] final(self).player_index(q) == old(self).player_index(q)
                &&& forall|g: u64| #[trigger] final(self).groups_view().contains_key(g) ==>
                    final(self).groups_view()[g].members == old(self).groups_view()[g].members.remove(player_id.0)
            },
    {
        let ids: Vec<MulticastGroupId> = match self.player_groups.get(&player_id.0) {
            Some(set) => group_ids_of(set),
            None => Vec::new(),
        };
        let ghost idv = ids@.map_values(|g: MulticastGroupId| g.0);
        let ghost pset = old(self).player_index(player_id.0);
        proof {
            if !old(self).player_groups@.contains_key(player_id.0) {
                assert(idv =~= Seq::<u64>::empty());
                assert(pset =~= Set::<u64>::empty());
            }
        }
        let mut count: usize = 0;
        let mut i: usize = 0;
        while i < ids.len()
            invariant
                self.wf(),
                idv == ids@.map_values(|g: MulticastGroupId| g.0),
                idv.to_set() == pset,
                idv.no_duplicates(),
                ids@.len() == pset.len(),
                pset == old(self).player_index(player_id.0),
                0 <= i <= ids@.len(),
                count == i,
                self.next_id == old(self).next_id,
                self.lod_rooms@ == old(self).lod_rooms@,
                self.groups_view().dom() == old(self).groups_view().dom(),
                forall|c: u8| #[trigger] self.channel_index(c) == old(self).channel_index(c),
                forall|j: int| 0 <= j < i ==> #[trigger] old(self).groups_view().contains_key(idv[j]),
                forall|g: u64| #[trigger] self.groups_view().contains_key(g) ==> {
                    if idv.take(i as int).contains(g) {
                        &&& self.groups_view()[g].members == old(self).groups_view()[g].members.remove(player_id.0)
                        &&& self.groups_view()[g].stats.member_removals == old(self).groups_view()[g].stats.member_removals + 1
                    } else {
                        self.groups_view()[g] == old(self).groups_view()[g]
                    }
                },
                self.player_index(player_id.0) == pset.difference(idv.take(i as int).to_set()),
                forall|q: u128| q != player_id.0 ==> #[trigger] self.player_index(q) == old(self).player_index(q),
                forall|g: u64| #[trigger] old(self).groups_view().contains_key(g) ==> old(self).groups_view()[g].stats.member_removals < u64::MAX,
            decreases ids@.len() - i,
        {
            let gid = ids[i];
            if !self.groups.contains_key(&gid.0) {
                proof {
                    assert(idv[i as int] == gid.0);
                    assert(pset.contains(gid.0)) by {
                        assert(idv.contains(gid.0));
                    }
                    assert(!self.groups_view().contains_key(gid.0));
                }
                return Err(MulticastError::GroupNotFound { id: gid });
            }
            let ghost before = *self;
            proof {
                assert(idv[i as int] == gid.0);
                assert(!idv.take(i as int).contains(gid.0)) by {
                    if idv.take(i as int).contains(gid.0) {
                        let j = choose|j: int| 0 <= j < i && #[trigger] idv.take(i as int)[j] == gid.0;
                        assert(idv[j] == idv[i as int]);
                    }
                }
                assert(self.groups_view().contains_key(gid.0));
                assert(pset.contains(gid.0)) by {
                    assert(idv.contains(gid.0));
                }
                assert(self.player_index(player_id.0).contains(gid.0));
            }
            let res = self.remove_player_from_group(player_id, gid);
            match res {
                Ok(true) => {
                    count = count + 1;
                },
                _ => {},
            }
            i = i + 1;
            proof {
                assert(idv.take(i as int) =~= idv.take(i - 1).push(gid.0));
                assert forall|x: u64| #[trigger] idv.take(i as int).to_set().contains(x) <==> (idv.take(i - 1).to_set().contains(x) || x == gid.0) by {
                    let a = idv.take(i - 1);
                    let b = idv.take(i as int);
                    if b.to_set().contains(x) {
                        assert(b.contains(x));
                        let j = choose|j: int| 0 <= j < b.len() && #[trigger] b[j] == x;
                        if j < i - 1 {
                            assert(a[j] == x);
                            assert(a.contains(x));
                        }
                    }
                    if a.to_set().contains(x) {
                        assert(a.contains(x));
                        let j = choose|j: int| 0 <= j < a.len() && #[trigger] a[j] == x;
                        assert(b[j] == x);
                        assert(b.contains(x));
                    }
                    if x == gid.0 {
                        assert(b[i - 1] == x);
                        assert(b.contains(x));
                    }
                }
                assert(self.player_index(player_id.0) =~= pset.difference(idv.take(i as int).to_set()));
                assert forall|g: u64| #[trigger] self.groups_view().contains_key(g) implies {
                    if idv.take(i as int).contains(g) {
                        &&& self.groups_view()[g].members == old(self).groups_view()[g].members.remove(player_id.0)
                        &&& self.groups_view()[g].stats.member_removals == old(self).groups_view()[g].stats.member_removals + 1
                    } else {
                        self.groups_view()[g] == old(self).groups_view()[g]
                    }
                } by {
                    if g != gid.0 {
                        assert(idv.take(i as int).contains(g) <==> idv.take(i - 1).contains(g)) by {
                            if idv.take(i as int).contains(g) {
                                let j = choose|j: int| 0 <= j < i && #[trigger] idv.take(i as int)[j] == g;
                                assert(idv.take(i - 1)[j] == g);
                            }
                            if idv.take(i - 1).contains(g) {
                                let j = choose|j: int| 0 <= j < i - 1 && #[trigger] idv.take(i - 1)[j] == g;
                                assert(idv.take(i as int)[j] == g);
                            }
                        }
                    } else {
                        assert(idv.take(i as int)[i - 1] == g);
                    }
                }
            }
        }
        let ghost before_remove = *self;
        self.player_groups.remove(&player_id.0);
        proof {
            assert(idv.take(i as int) =~= idv);
            assert(before_remove.player_index(player_id.0) =~= Set::<u64>::empty());
            assert(self.player_index(player_id.0) =~= Set::<u64>::empty());
            assert(self.groups_view() =~= before_remove.groups_view());
            assert forall|q: u128| q != player_id.0 implies #[trigger] self.player_index(q) == before_remove.player_index(q) by {}
            assert forall|g: u64| #[trigger] old(self).player_index(player_id.0).contains(g) implies old(self).groups_view().contains_key(g) by {
                assert(idv.contains(g));
                let j = choose|j: int| 0 <= j < idv.len() && #[trigger] idv[j] == g;
            }
            assert forall|g: u64, p: u128|
                self.groups_view().contains_key(g) && #[trigger] self.groups_view()[g].members.contains(p)
                    implies self.player_index(p).contains(g) by {
                assert(before_remove.groups_view()[g].members.contains(p));
                if p == player_id.0 {
                    if idv.contains(g) {
                    } else {
                        assert(old(self).groups_view()[g].members.contains(p));
                        assert(pset.contains(g));
                    }
                }
            }
            assert forall|p: u128, g: u64| #[trigger] self.player_index(p).contains(g) implies g < self.next_id && (
                self.groups_view().contains_key(g) ==> self.groups_view()[g].members.contains(p)) by {
                assert(before_remove.player_index(p).contains(g));
            }
            assert forall|c: u8, g: u64| #[trigger] self.channel_index(c).contains(g) implies self.groups_view().contains_key(g)
                && self.groups_view()[g].channels.contains(c) by {
                assert(before_remove.channel_index(c).contains(g));
            }
            assert forall|g: u64| #[trigger] self.groups_view().contains_key(g) implies
                self.groups_view()[g].members == old(self).groups_view()[g].members.remove(player_id.0) by {
                if !idv.contains(g) {
                    if old(self).groups_view()[g].members.contains(player_id.0) {
                        assert(pset.contains(g));
                    }
                    assert(old(self).groups_view()[g].members.remove(player_id.0) =~= old(self).groups_view()[g].members);
                }
            }
        }
        Ok(count)
    }
}

impl MulticastRegistry {
    /// Identifier values of the groups that have no members.
    pub open spec fn empty_groups(&self) -> Set<u64> {
        self.groups_view().dom().filter(|g: u64| self.groups_view()[g].members.is_empty())
    }

    /// All groups and rooms a player joined, each once.
    pub fn get_player_groups(&self, player_id: PlayerId) -> (v: Vec<MulticastGroupId>)
        ensures
            v@.map_values(|g: MulticastGroupId| g.0).to_set() == self.player_index(player_id.0),
            v@.map_values(|g: MulticastGroupId| g.0).no_duplicates(),
    {
        match self.player_groups.get(&player_id.0) {
            Some(set) => group_ids_of(set),
            None => {
                let v: Vec<MulticastGroupId> = Vec::new();
                assert(v@.map_values(|g: MulticastGroupId| g.0).to_set() =~= Set::<u64>::empty());
                v
            },
        }
    }

    /// All groups handling a channel, each once.
    pub fn get_groups_for_channel(&self, channel: u8) -> (v: Vec<MulticastGroupId>)
        ensures
            v@.map_values(|g: MulticastGroupId| g.0).to_set() == self.channel_index(channel),
            v@.map_values(|g: MulticastGroupId| g.0).no_duplicates(),
    {
        match self.channel_groups.get(&channel) {
            Some(set) => group_ids_of(set),
            None => {
                let v: Vec<MulticastGroupId> = Vec::new();
                assert(v@.map_values(|g: MulticastGroupId| g.0).to_set() =~= Set::<u64>::empty());
                v
            },
        }
    }

    /// The group registered under an identifier, if any.
    pub fn get_group(&self, group_id: MulticastGroupId) -> (r: Option<&MulticastGroup>)
        ensures
            r is Some <==> self.groups_view().contains_key(group_id.0),
            r matches Some(g) ==> g@ == self.groups_view()[group_id.0],
    {
        self.groups.get(&group_id.0)
    }

    /// The registry's counters.
    pub fn get_stats(&self) -> (s: MulticastStats)
        ensures
            s == self.stats_view(),
    {
        self.stats
    }

    /// Number of groups (LOD rooms not included).
    pub fn group_count(&self) -> (n: usize)
        ensures
            n == self.groups_view().dom().len(),
    {
        proof {
            assert(self.groups_view().dom() =~= self.groups@.dom());
        }
        self.groups.len()
    }

    /// Records a broadcast of `data_len` bytes to a group and returns the
    /// number of members reached. Fails with `GroupNotFound` for an unknown
    /// group.
    pub fn broadcast_to_group(&mut self, group_id: MulticastGroupId, data_len: usize) -> (r: Result<usize, MulticastError>)
        requires
            old(self).wf(),
            old(self).groups_view().contains_key(group_id.0) ==> {
                &&& old(self).groups_view()[group_id.0].stats.messages_sent < u64::MAX
                &&& old(self).groups_view()[group_id.0].stats.bytes_sent + data_len <= u64::MAX
                &&& old(self).stats_view().messages_sent < u64::MAX
                &&& old(self).stats_view().bytes_sent + data_len <= u64::MAX
            },
        ensures
            final(self).wf(),
            final(self).next_id_view() == old(self).next_id_view(),
            final(self).rooms_view() == old(self).rooms_view(),
            forall|p: u128| #[trigger] final(self).player_index(p) == old(self).player_index(p),
            forall|c: u8| #[trigger] final(self).channel_index(c) == old(self).channel_index(c),
            !old(self).groups_view().contains_key(group_id.0) ==> {
                &&& r matches Err(e) && e matches MulticastError::GroupNotFound { id } && id == group_id
                &&& final(self).groups_view() == old(self).groups_view()
                &&& final(self).stats_view() == old(self).stats_view()
            },
            old(self).groups_view().contains_key(group_id.0) ==> {
                let g = old(self).groups_view()[group_id.0];
                &&& r == Ok::<usize, MulticastError>(g.members.len() as usize)
                &&& final(self).groups_view() == old(self).groups_view().insert(
                    group_id.0,
                    GroupView {
                        stats: GroupStats {
                            messages_sent: (g.stats.messages_sent + 1) as u64,
                            bytes_sent: (g.stats.bytes_sent + data_len) as u64,
                            ..g.stats
                        },
                        ..g
                    },
                )
                &&& final(self).stats_view() == (MulticastStats {
                    messages_sent: (old(self).stats_view().messages_sent + 1) as u64,
                    bytes_sent: (old(self).stats_view().bytes_sent + data_len) as u64,
                    ..old(self).stats_view()
                })
            },
    {
        let gid = group_id.0;
        let taken = self.groups.remove(&gid);
        match taken {
            None => {
                proof {
                    assert(self.groups_view() =~= old(self).groups_view());
                    Self::lemma_wf_same_views(old(self), self);
                }
                Err(MulticastError::GroupNotFound { id: group_id })
            },
            Some(mut group) => {
                let member_count = group.member_count();
                group.record_broadcast(data_len);
                self.groups.insert(gid, group);
                self.stats.messages_sent = self.stats.messages_sent + 1;
                self.stats.bytes_sent = self.stats.bytes_sent + data_len as u64;
                proof {
                    let gv = old(self).groups_view();
                    assert(self.groups_view() =~= gv.insert(gid, group@));
                    assert forall|g: u64| #[trigger] self.groups_view().contains_key(g) implies {
                        &&& self.groups_view()[g].id.0 == g
                        &&& g < self.next_id
                        &&& !self.lod_rooms@.contains(g)
                    } by {
                        assert(gv.contains_key(g));
                    }
                    assert forall|g: u64, p: u128|
                        self.groups_view().contains_key(g) && #[trigger] self.groups_view()[g].members.contains(p)
                            implies self.player_index(p).contains(g) by {
                        assert(gv[g].members.contains(p));
                    }
                    assert forall|p: u128, g: u64| #[trigger] self.player_index(p).contains(g) implies g < self.next_id && (
                        self.groups_view().contains_key(g) ==> self.groups_view()[g].members.contains(p)) by {
                        assert(old(self).player_index(p).contains(g));
                    }
                    assert forall|g: u64, c: u8|
                        self.groups_view().contains_key(g) && #[trigger] self.groups_view()[g].channels.contains(c)
                            implies self.channel_index(c).contains(g) by {
                        assert(gv[g].channels.contains(c));
                    }
                    assert forall|c: u8, g: u64| #[trigger] self.channel_index(c).contains(g) implies self.groups_view().contains_key(g)
                        && self.groups_view()[g].channels.contains(c) by {
                        assert(old(self).channel_index(c).contains(g));
                    }
                }
                Ok(member_count)
            },
        }
    }
}

impl MulticastRegistry {
    /// Identifier values of the groups without members, each once.
    fn empty_group_ids(&self) -> (v: Vec<u64>)
        ensures
            v@.to_set() == self.empty_groups(),
            v@.no_duplicates(),
    {
        let mut v: Vec<u64> = Vec::new();
        let ghost all = self.groups.iter().remaining();
        for kv in it: self.groups.iter()
            invariant
                it.seq() == all,
                all.len() == self.groups@.dom().len(),
                all.no_duplicates(),
                forall|j: int| 0 <= j < all.len() ==> #[trigger] self.groups@.contains_key(*all[j].0)
                    && self.groups@[*all[j].0] == *all[j].1,
                forall|k: u64| #[trigger] self.groups@.contains_key(k) ==> all.contains((&k, &self.groups@[k])),
                v@.no_duplicates(),
                forall|x: u64| #[trigger] v@.contains(x) <==> exists|j: int| 0 <= j < it.index() && *all[j].0 == x
                    && (#[trigger] all[j].1)@.members.is_empty(),
        {
            let (k, g) = kv;
            let ghost i = it.index();
            if g.is_empty() {
                proof {
                    if v@.contains(*k) {
                        let j = choose|j: int| 0 <= j < i && *all[j].0 == *k && (#[trigger] all[j].1)@.members.is_empty();
                        assert(self.groups@[*all[j].0] == *all[j].1);
                        assert(all[j] == all[i as int]);
                    }
                }
                let ghost prev = v@;
                v.push(*k);
                proof {
                    assert(all[i as int] == (k, g));
                    assert forall|x: u64| #[trigger] v@.contains(x) <==> (prev.contains(x) || x == *k) by {
                        if v@.contains(x) {
                            let t = choose|t: int| 0 <= t < v@.len() && v@[t] == x;
                            if t < prev.len() {
                                assert(prev[t] == x);
                            }
                        }
                        if prev.contains(x) {
                            let t = choose|t: int| 0 <= t < prev.len() && prev[t] == x;
                            assert(v@[t] == x);
                        }
                        if x == *k {
                            assert(v@[prev.len() as int] == x);
                        }
                    }
                    assert forall|x: u64| #[trigger] v@.contains(x) <==> exists|j: int| 0 <= j < i + 1 && *all[j].0 == x
                        && (#[trigger] all[j].1)@.members.is_empty() by {
                        if x == *k {
                            assert(*all[i as int].0 == x && (all[i as int].1)@.members.is_empty());
                        }
                        if exists|j: int| 0 <= j < i + 1 && *all[j].0 == x && (#[trigger] all[j].1)@.members.is_empty() {
                            let j = choose|j: int| 0 <= j < i + 1 && *all[j].0 == x && (#[trigger] all[j].1)@.members.is_empty();
                            if j < i {
                                assert(prev.contains(x));
                            }
                        }
                    }
                }
            } else {
                proof {
                    assert forall|x: u64| #[trigger] v@.contains(x) <==> exists|j: int| 0 <= j < i + 1 && *all[j].0 == x
                        && (#[trigger] all[j].1)@.members.is_empty() by {
                        if exists|j: int| 0 <= j < i + 1 && *all[j].0 == x && (#[trigger] all[j].1)@.members.is_empty() {
                            let j = choose|j: int| 0 <= j < i + 1 && *all[j].0 == x && (#[trigger] all[j].1)@.members.is_empty();
                            if j == i {
                                assert(false);
                            }
                        }
                    }
                }
            }
        }
        proof {
            assert forall|x: u64| #[trigger] v@.to_set().contains(x) <==> self.empty_groups().contains(x) by {
                if self.empty_groups().contains(x) {
                    assert(self.groups@.contains_key(x));
                    assert(all.contains((&x, &self.groups@[x])));
                    let j = choose|j: int| 0 <= j < all.len() && all[j] == (&x, &self.groups@[x]);
                    assert((all[j].1)@.members.is_empty());
                    assert(v@.contains(x));
                }
                if v@.contains(x) {
                    let j = choose|j: int| 0 <= j < all.len() && *all[j].0 == x && (#[trigger] all[j].1)@.members.is_empty();
                    assert(self.groups@.contains_key(*all[j].0));
                }
            }
            assert(v@.to_set() =~= self.empty_groups());
        }
        v
    }
}

impl MulticastRegistry {
    /// Destroys every group that has no members and returns how many were
    /// destroyed. Groups with members, rooms and the player index are kept.
    pub fn optimize(&mut self) -> (removed: usize)
        requires
            old(self).wf(),
            old(self).stats_view().groups_destroyed + old(self).groups_view().dom().len() <= u64::MAX,
        ensures
            final(self).wf(),
            removed == old(self).empty_groups().len(),
            final(self).groups_view() == old(self).groups_view().remove_keys(old(self).empty_groups()),
            final(self).next_id_view() == old(self).next_id_view(),
            final(self).rooms_view() == old(self).rooms_view(),
            forall|p: u128| #[trigger] final(self).player_index(p) == old(self).player_index(p),
            forall|c: u8| #[trigger] final(self).channel_index(c) == old(self).channel_index(c).difference(old(self).empty_groups()),
            final(self).stats_view() == (MulticastStats {
                total_groups: if old(self).stats_view().total_groups >= removed {
                    (old(self).stats_view().total_groups - removed) as usize
                } else {
                    0
                },
                groups_destroyed: (old(self).stats_view().groups_destroyed + removed) as u64,
                ..old(self).stats_view()
            }),
    {
        let empties = self.empty_group_ids();
        let ghost ev = empties@;
        let ghost gv0 = old(self).groups_view();
        proof {
            ev.unique_seq_to_set();
            assert(ev.len() <= gv0.dom().len()) by {
                assert(gv0.dom() =~= old(self).groups@.dom());
                assert(ev.to_set().subset_of(gv0.dom()));
                vstd::set_lib::lemma_len_subset(ev.to_set(), gv0.dom());
            }
        }
        let mut i: usize = 0;
        while i < empties.len()
            invariant
                self.wf(),
                ev == empties@,
                ev.to_set() == old(self).empty_groups(),
                ev.no_duplicates(),
                ev.len() <= gv0.dom().len(),
                gv0 == old(self).groups_view(),
                0 <= i <= ev.len(),
                self.groups_view() == gv0.remove_keys(ev.take(i as int).to_set()),
                self.next_id_view() == old(self).next_id_view(),
                self.rooms_view() == old(self).rooms_view(),
                forall|p: u128| #[trigger] self.player_index(p) == old(self).player_index(p),
                forall|c: u8| #[trigger] self.channel_index(c) == old(self).channel_index(c).difference(ev.take(i as int).to_set()),
                self.stats_view() == (MulticastStats {
                    total_groups: if old(self).stats_view().total_groups >= i {
                        (old(self).stats_view().total_groups - i) as usize
                    } else {
                        0
                    },
                    groups_destroyed: (old(self).stats_view().groups_destroyed + i) as u64,
                    ..old(self).stats_view()
                }),
                old(self).stats_view().groups_destroyed + gv0.dom().len() <= u64::MAX,
            decreases ev.len() - i,
        {
            let gid = empties[i];
            let ghost before = *self;
            proof {
                assert(ev.contains(gid));
                assert(ev.to_set().contains(gid));
                assert(!ev.take(i as int).contains(gid)) by {
                    if ev.take(i as int).contains(gid) {
                        let j = choose|j: int| 0 <= j < i && #[trigger] ev.take(i as int)[j] == gid;
                        assert(ev[j] == ev[i as int]);
                    }
                }
                assert(!ev.take(i as int).to_set().contains(gid));
                assert(self.groups_view().contains_key(gid));
                assert(self.groups_view()[gid].members.is_empty());
            }
            let res = self.destroy_group(MulticastGroupId(gid));
            i = i + 1;
            proof {
                let prev = ev.take(i - 1).to_set();
                let next = ev.take(i as int).to_set();
                assert(ev.take(i as int) =~= ev.take(i - 1).push(gid));
                assert(next =~= prev.insert(gid)) by {
                    assert forall|x: u64| next.contains(x) <==> prev.contains(x) || x == gid by {
                        let a = ev.take(i - 1);
                        let b = ev.take(i as int);
                        if b.contains(x) {
                            let j = choose|j: int| 0 <= j < b.len() && #[trigger] b[j] == x;
                            if j < i - 1 {
                                assert(a[j] == x);
                            }
                        }
                        if a.contains(x) {
                            let j = choose|j: int| 0 <= j < a.len() && #[trigger] a[j] == x;
                            assert(b[j] == x);
                        }
                        if x == gid {
                            assert(b[i - 1] == x);
                        }
                    }
                }
                assert(self.groups_view() =~= gv0.remove_keys(next));
                assert(before.groups_view()[gid].members =~= Set::<u128>::empty());
                assert forall|p: u128| #[trigger] self.player_index(p) == old(self).player_index(p) by {
                    if before.player_index(p).contains(gid) {
                        assert(before.groups_view()[gid].members.contains(p));
                    }
                    assert(before.player_index(p).remove(gid) =~= before.player_index(p));
                }
                assert forall|c: u8| #[trigger] self.channel_index(c) == old(self).channel_index(c).difference(next) by {
                    assert(self.channel_index(c) =~= old(self).channel_index(c).difference(next));
                }
                assert(i <= gv0.dom().len());
            }
        }
        proof {
            assert(ev.take(i as int) =~= ev);
            ev.unique_seq_to_set();
        }
        i
    }
}

/// The indexes of a registry agree with its groups: a player is indexed under
/// a group exactly when it is a member, a group is indexed under a channel
/// exactly when it handles the channel, and every group and room identifier
/// lies below the counter (so identifiers handed out later are fresh).
pub proof fn law_indexes_agree_with_groups(r: MulticastRegistry, p: u128, c: u8, g: u64)
    requires
        r.wf(),
    ensures
        r.groups_view().contains_key(g) ==> (r.player_index(p).contains(g) <==> r.is_member(g, p)),
        r.channel_index(c).contains(g) <==> (r.groups_view().contains_key(g) && r.groups_view()[g].channels.contains(c)),
        r.groups_view().contains_key(g) ==> g < r.next_id_view() && r.groups_view()[g].id.0 == g,
        r.rooms_view().contains(g) ==> g < r.next_id_view() && !r.groups_view().contains_key(g),
        r.player_index(p).contains(g) ==> g < r.next_id_view(),
{
    if r.groups_view().contains_key(g) && r.groups_view()[g].members.contains(p) {
        assert(r.player_index(p).contains(g));
    }
    if r.groups_view().contains_key(g) && r.groups_view()[g].channels.contains(c) {
        assert(r.channel_index(c).contains(g));
    }
}

/// Creating a group and destroying it again leaves the groups, the rooms,
/// the player index and the channel index of a registry as they were.
pub proof fn law_create_then_destroy_restores(r: MulticastRegistry, group: GroupView, channels: Set<u8>, p: u128, c: u8)
    requires
        r.wf(),
    ensures
        ({
            let id = r.next_id_view();
            &&& r.groups_view().insert(id, group).remove(id) == r.groups_view()
            &&& r.rooms_view().remove(id) == r.rooms_view()
            &&& r.player_index(p).remove(id) == r.player_index(p)
            &&& (if channels.contains(c) {
                r.channel_index(c).insert(id)
            } else {
                r.channel_index(c)
            }).remove(id) == r.channel_index(c)
        }),
{
    let id = r.next_id_view();
    law_indexes_agree_with_groups(r, p, c, id);
    assert(r.groups_view().insert(id, group).remove(id) =~= r.groups_view());
    assert(r.rooms_view().remove(id) =~= r.rooms_view());
    assert(r.player_index(p).remove(id) =~= r.player_index(p));
    assert(r.channel_index(c).insert(id).remove(id) =~= r.channel_index(c));
    assert(r.channel_index(c).remove(id) =~= r.channel_index(c));
}

/// The group count of a registry is the number of its groups plus the
/// number of its LOD rooms, whatever operations made it.
pub proof fn law_group_count_is_groups_and_rooms(r: MulticastRegistry)
    requires
        r.wf(),
    ensures
        r.groups_view().dom().finite(),
        r.rooms_view().finite(),
        r.stats_view().total_groups == r.groups_view().dom().len() + r.rooms_view().len(),
{
    r.lemma_group_count();
}

impl MulticastRegistry {
    proof fn lemma_group_count(&self)
        requires
            self.wf(),
        ensures
            self.groups_view().dom().finite(),
            self.rooms_view().finite(),
            self.stats_view().total_groups == self.groups_view().dom().len() + self.rooms_view().len(),
    {
        assert(self.groups_view().dom() =~= self.groups@.dom());
    }
}

} // verus!
