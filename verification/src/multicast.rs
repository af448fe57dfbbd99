//! Multicast groups and the registry that keeps groups, LOD room identifiers,
//! and the player and channel indexes consistent with one another.

use crate::lod::{GroupStats, MulticastGroupId};
use crate::priority::ReplicationPriority;
use crate::types::PlayerId;
use std::collections::{HashMap, HashSet};
use vstd::prelude::*;
use vstd::std_specs::iter::IteratorSpec;

verus! {

/// Default capacity of a multicast group.
pub const DEFAULT_MAX_MEMBERS: usize = 1000;

/// Error types for multicast operations.
#[derive(Debug)]
pub enum MulticastError {
    GroupNotFound { id: MulticastGroupId },
    PlayerNotFound { player_id: PlayerId },
    InvalidLodLevel,
    GroupCapacityExceeded,
    Configuration(String),
    Network(String),
}

/// The values of a set of 128-bit player identifiers, as a vector.
fn players_of(s: &HashSet<u128>) -> (v: Vec<PlayerId>)
    ensures
        v@.map_values(|p: PlayerId| p.0).to_set() == s@,
        v@.map_values(|p: PlayerId| p.0).no_duplicates(),
        v@.len() == s@.len(),
{
    let mut v: Vec<PlayerId> = Vec::new();
    let ghost all = s.iter().remaining();
    for x in it: s.iter()
        invariant
            it.seq() == all,
            v@.map_values(|p: PlayerId| p.0) == all.take(it.index() as int).unref(),
            v@.len() == it.index(),
    {
        let ghost before = v@;
        v.push(PlayerId(*x));
        proof {
            assert(v@.map_values(|p: PlayerId| p.0) =~= before.map_values(|p: PlayerId| p.0).push(*x));
            assert(all.take(it.index() + 1).unref() =~= all.take(it.index() as int).unref().push(*x));
        }
    }
    assert(all.take(all.len() as int) =~= all);
    v
}

/// The abstract state of a multicast group.
#[verifier::ext_equal]
pub struct GroupView {
    pub id: MulticastGroupId,
    pub name: Seq<char>,
    pub members: Set<u128>,
    pub channels: Set<u8>,
    pub priority: ReplicationPriority,
    pub max_members: usize,
    pub stats: GroupStats,
}

/// A multicast group for efficient data distribution.
pub struct MulticastGroup {
    /// Unique identifier for this group
    pub id: MulticastGroupId,
    /// Name of the group
    pub name: String,
    /// Members of this multicast group, by player identifier value
    pub members: HashSet<u128>,
    /// Replication channels this group handles
    pub channels: HashSet<u8>,
    /// Priority level for this group
    pub priority: ReplicationPriority,
    /// Maximum number of members
    pub max_members: usize,
    /// Group statistics
    pub stats: GroupStats,
}

impl View for MulticastGroup {
    type V = GroupView;

    open spec fn view(&self) -> GroupView {
        GroupView {
            id: self.id,
            name: self.name@,
            members: self.members@,
            channels: self.channels@,
            priority: self.priority,
            max_members: self.max_members,
            stats: self.stats,
        }
    }
}

impl MulticastGroup {
    /// Creates a group with the given identifier, no members and the default
    /// capacity.
    pub fn with_id(id: MulticastGroupId, name: String, channels: HashSet<u8>, priority: ReplicationPriority) -> (g: Self)
        ensures
            g@ == (GroupView {
                id,
                name: name@,
                members: Set::empty(),
                channels: channels@,
                priority,
                max_members: DEFAULT_MAX_MEMBERS,
                stats: GroupStats::spec_zero(),
            }),
    {
        MulticastGroup {
            id,
            name,
            members: HashSet::new(),
            channels,
            priority,
            max_members: DEFAULT_MAX_MEMBERS,
            stats: GroupStats::new(),
        }
    }

    /// Creates a new multicast group with a fresh random identifier.
    pub fn new(name: String, channels: HashSet<u8>, priority: ReplicationPriority) -> (g: Self)
        ensures
            g@.name == name@,
            g@.members == Set::<u128>::empty(),
            g@.channels == channels@,
            g@.priority == priority,
            g@.max_members == DEFAULT_MAX_MEMBERS,
            g@.stats == GroupStats::spec_zero(),
    {
        Self::with_id(MulticastGroupId::new(), name, channels, priority)
    }

    /// Creates a new group with a custom capacity.
    pub fn with_capacity(name: String, channels: HashSet<u8>, priority: ReplicationPriority, max_members: usize) -> (g: Self)
        ensures
            g@.name == name@,
            g@.members == Set::<u128>::empty(),
            g@.channels == channels@,
            g@.priority == priority,
            g@.max_members == max_members,
            g@.stats == GroupStats::spec_zero(),
    {
        let mut group = Self::new(name, channels, priority);
        group.max_members = max_members;
        group
    }

    /// Adds a member. Fails with `GroupCapacityExceeded` when the group is
    /// full; otherwise returns whether the player was newly added.
    pub fn add_member(&mut self, player_id: PlayerId) -> (r: Result<bool, MulticastError>)
        requires
            old(self)@.stats.member_additions < u64::MAX,
        ensures
            old(self)@.members.len() >= old(self)@.max_members ==> {
                &&& r matches Err(MulticastError::GroupCapacityExceeded)
                &&& final(self)@ == old(self)@
            },
            old(self)@.members.len() < old(self)@.max_members ==> {
                let added = !old(self)@.members.contains(player_id.0);
                &&& r == Ok::<bool, MulticastError>(added)
                &&& final(self)@ == (GroupView {
                    members: old(self)@.members.insert(player_id.0),
                    stats: GroupStats {
                        member_additions: if added {
                            (old(self)@.stats.member_additions + 1) as u64
                        } else {
                            old(self)@.stats.member_additions
                        },
                        ..old(self)@.stats
                    },
                    ..old(self)@
                })
            },
            old(self)@.members.finite() ==> final(self)@.members.finite(),
            old(self)@.members.finite() ==> (r matches Ok(added) ==> final(self)@.members.len() == old(self)@.members.len()
                + if added {
                1int
            } else {
                0int
            }),
    {
        if self.members.len() >= self.max_members {
            return Err(MulticastError::GroupCapacityExceeded);
        }
        let added = self.members.insert(player_id.0);
        if added {
            self.stats.member_additions = self.stats.member_additions + 1;
        } else {
            assert(self.members@ =~= old(self).members@);
        }
        Ok(added)
    }

    /// Removes a member; returns whether the player was a member.
    pub fn remove_member(&mut self, player_id: PlayerId) -> (removed: bool)
        requires
            old(self)@.stats.member_removals < u64::MAX,
        ensures
            removed == old(self)@.members.contains(player_id.0),
            final(self)@ == (GroupView {
                members: old(self)@.members.remove(player_id.0),
                stats: GroupStats {
                    member_removals: if removed {
                        (old(self)@.stats.member_removals + 1) as u64
                    } else {
                        old(self)@.stats.member_removals
                    },
                    ..old(self)@.stats
                },
                ..old(self)@
            }),
            old(self)@.members.finite() ==> final(self)@.members.finite(),
            old(self)@.members.finite() ==> final(self)@.members.len() == old(self)@.members.len() - if removed {
                1int
            } else {
                0int
            },
    {
        let removed = self.members.remove(&player_id.0);
        if removed {
            self.stats.member_removals = self.stats.member_removals + 1;
        }
        removed
    }

    /// Checks if the group contains a member.
    pub fn contains_member(&self, player_id: PlayerId) -> (b: bool)
        ensures
            b == self@.members.contains(player_id.0),
    {
        self.members.contains(&player_id.0)
    }

    /// Current member count.
    pub fn member_count(&self) -> (n: usize)
        ensures
            n == self@.members.len(),
    {
        self.members.len()
    }

    /// Checks if the group is full.
    pub fn is_full(&self) -> (b: bool)
        ensures
            b == (self@.members.len() >= self@.max_members),
    {
        self.members.len() >= self.max_members
    }

    /// Checks if the group is empty.
    pub fn is_empty(&self) -> (b: bool)
        ensures
            b == self@.members.is_empty(),
    {
        self.members.is_empty()
    }

    /// Records a message broadcast to this group.
    pub fn record_broadcast(&mut self, bytes_sent: usize)
        requires
            old(self)@.stats.messages_sent < u64::MAX,
            old(self)@.stats.bytes_sent + bytes_sent <= u64::MAX,
        ensures
            final(self)@ == (GroupView {
                stats: GroupStats {
                    messages_sent: (old(self)@.stats.messages_sent + 1) as u64,
                    bytes_sent: (old(self)@.stats.bytes_sent + bytes_sent) as u64,
                    ..old(self)@.stats
                },
                ..old(self)@
            }),
    {
        self.stats.messages_sent = self.stats.messages_sent + 1;
        self.stats.bytes_sent = self.stats.bytes_sent + bytes_sent as u64;
    }

    /// Checks if the group handles a specific channel.
    pub fn handles_channel(&self, channel: u8) -> (b: bool)
        ensures
            b == self@.channels.contains(channel),
    {
        self.channels.contains(&channel)
    }

    /// Adds a channel to this group.
    pub fn add_channel(&mut self, channel: u8)
        ensures
            final(self)@ == (GroupView { channels: old(self)@.channels.insert(channel), ..old(self)@ }),
    {
        self.channels.insert(channel);
    }

    /// Removes a channel from this group; returns whether it was handled.
    pub fn remove_channel(&mut self, channel: u8) -> (removed: bool)
        ensures
            removed == old(self)@.channels.contains(channel),
            final(self)@ == (GroupView { channels: old(self)@.channels.remove(channel), ..old(self)@ }),
    {
        self.channels.remove(&channel)
    }

    /// All members, each once.
    pub fn get_members(&self) -> (v: Vec<PlayerId>)
        ensures
            v@.map_values(|p: PlayerId| p.0).to_set() == self@.members,
            v@.map_values(|p: PlayerId| p.0).no_duplicates(),
    {
        players_of(&self.members)
    }

    /// Removes every member, counting each as a removal.
    pub fn clear_members(&mut self)
        requires
            old(self)@.stats.member_removals + old(self)@.members.len() <= u64::MAX,
        ensures
            final(self)@ == (GroupView {
                members: Set::empty(),
                stats: GroupStats {
                    member_removals: (old(self)@.stats.member_removals + old(self)@.members.len()) as u64,
                    ..old(self)@.stats
                },
                ..old(self)@
            }),
    {
        let removed_count = self.members.len();
        self.members.clear();
        self.stats.member_removals = self.stats.member_removals + removed_count as u64;
    }
}


/// A group never holds more members than its capacity: adding a member to a
/// group within its capacity (which `add_member` refuses for a full group)
/// and removing one both keep it within.
pub proof fn law_membership_within_capacity(g: GroupView, p: u128)
    requires
        g.members.finite(),
        g.members.len() <= g.max_members,
    ensures
        (if g.members.len() >= g.max_members {
            g.members
        } else {
            g.members.insert(p)
        }).len() <= g.max_members,
        g.members.remove(p).len() <= g.max_members,
{
    if g.members.contains(p) {
        assert(g.members.insert(p) =~= g.members);
    }
}

/// Adding a player to a group and removing it again leaves the group's
/// members as they were, where the player was not a member before.
pub proof fn law_add_then_remove_member_restores(g: GroupView, p: u128)
    requires
        !g.members.contains(p),
    ensures
        g.members.insert(p).remove(p) == g.members,
{
    assert(g.members.insert(p).remove(p) =~= g.members);
}

} // verus!
