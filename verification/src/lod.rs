//! Level-of-detail steps, multicast group identifiers and group statistics.

use crate::priority::ReplicationPriority;
use crate::types::random_uuid_value;
use vstd::prelude::*;

verus! {

/// Unique identifier for multicast groups and LOD rooms.
#[derive(Debug, Clone, Copy, PartialEq, Eq, Structural, Hash)]
pub struct MulticastGroupId(pub u64);

impl MulticastGroupId {
    /// Creates a new identifier from the low 64 bits of a random UUID (v4;
    /// panics where the system's random source fails), so its top two bits
    /// are the UUID's variant bits `10`. Identifiers handed out by a
    /// [`crate::group_registry::MulticastRegistry`] come from its own counter
    /// instead and are provably fresh there.
    pub fn new() -> (g: Self)
        ensures
            (g.0 >> 62u64) & 0x3u64 == 2u64,
    {
        let v = random_uuid_value();
        let low = (v % 0x1_0000_0000_0000_0000u128) as u64;
        assert((low >> 62u64) & 0x3u64 == 2u64) by (bit_vector)
            requires
                (v >> 62u128) & 0x3u128 == 2u128,
                low == (v % 0x1_0000_0000_0000_0000u128) as u64,
        ;
        MulticastGroupId(low)
    }
}

/// Level of Detail settings for multicast rooms, from most to least detailed.
#[derive(Debug, Clone, Copy, PartialEq, Eq, Structural, Hash)]
pub enum LodLevel {
    /// Highest detail - full replication
    Ultra,
    /// High detail - most properties replicated
    High,
    /// Medium detail - important properties only
    Medium,
    /// Low detail - basic properties only
    Low,
    /// Minimal detail - essential properties only
    Minimal,
}

impl LodLevel {
    /// Detail step of the level: 0 is `Ultra`, 4 is `Minimal`.
    pub open spec fn spec_step(self) -> int {
        match self {
            LodLevel::Ultra => 0,
            LodLevel::High => 1,
            LodLevel::Medium => 2,
            LodLevel::Low => 3,
            LodLevel::Minimal => 4,
        }
    }

    /// The level at a detail step, where one exists.
    pub open spec fn from_step(s: int) -> Option<LodLevel> {
        if s == 0 {
            Some(LodLevel::Ultra)
        } else if s == 1 {
            Some(LodLevel::High)
        } else if s == 2 {
            Some(LodLevel::Medium)
        } else if s == 3 {
            Some(LodLevel::Low)
        } else if s == 4 {
            Some(LodLevel::Minimal)
        } else {
            None
        }
    }

    /// Priority of a level: Ultra, High, Medium and Low map to Critical, High,
    /// Normal and Low; Minimal is Low too.
    pub open spec fn spec_priority(self) -> ReplicationPriority {
        ReplicationPriority::from_rank(self.spec_step())
    }

    /// Gets the priority for this LOD level.
    pub fn priority(&self) -> (p: ReplicationPriority)
        ensures
            p == self.spec_priority(),
    {
        match self {
            LodLevel::Ultra => ReplicationPriority::Critical,
            LodLevel::High => ReplicationPriority::High,
            LodLevel::Medium => ReplicationPriority::Normal,
            LodLevel::Low => ReplicationPriority::Low,
            LodLevel::Minimal => ReplicationPriority::Low,
        }
    }

    /// Gets the next higher (more detailed) LOD level; `Ultra` has none.
    pub fn upgrade(&self) -> (r: Option<LodLevel>)
        ensures
            r == LodLevel::from_step(self.spec_step() - 1),
    {
        match self {
            LodLevel::Minimal => Some(LodLevel::Low),
            LodLevel::Low => Some(LodLevel::Medium),
            LodLevel::Medium => Some(LodLevel::High),
            LodLevel::High => Some(LodLevel::Ultra),
            LodLevel::Ultra => None,
        }
    }

    /// Gets the next lower (less detailed) LOD level; `Minimal` has none.
    pub fn downgrade(&self) -> (r: Option<LodLevel>)
        ensures
            r == LodLevel::from_step(self.spec_step() + 1),
    {
        match self {
            LodLevel::Ultra => Some(LodLevel::High),
            LodLevel::High => Some(LodLevel::Medium),
            LodLevel::Medium => Some(LodLevel::Low),
            LodLevel::Low => Some(LodLevel::Minimal),
            LodLevel::Minimal => None,
        }
    }
}

/// Every step between 0 and 4 names exactly one level, and back.
pub proof fn law_lod_steps_round_trip(l: LodLevel)
    ensures
        0 <= l.spec_step() <= 4,
        LodLevel::from_step(l.spec_step()) == Some(l),
{
}

/// Upgrading and then downgrading a level (or the reverse) gives the level
/// back, wherever the first step exists.
pub proof fn law_lod_upgrade_downgrade_inverse(l: LodLevel)
    ensures
        LodLevel::from_step(l.spec_step() - 1) matches Some(u) ==> LodLevel::from_step(u.spec_step() + 1) == Some(l),
        LodLevel::from_step(l.spec_step() + 1) matches Some(d) ==> LodLevel::from_step(d.spec_step() - 1) == Some(l),
{
}

/// A more detailed level never carries a less urgent priority.
pub proof fn law_lod_priority_monotone(a: LodLevel, b: LodLevel)
    requires
        a.spec_step() <= b.spec_step(),
    ensures
        a.spec_priority().spec_rank() <= b.spec_priority().spec_rank(),
{
}

/// Statistics for a multicast group.
#[derive(Debug, Clone, Copy, PartialEq, Eq, Structural)]
pub struct GroupStats {
    /// Number of member additions
    pub member_additions: u64,
    /// Number of member removals
    pub member_removals: u64,
    /// Number of messages sent to this group
    pub messages_sent: u64,
    /// Total bytes sent to this group
    pub bytes_sent: u64,
    /// Peak member count
    pub peak_member_count: usize,
}

impl GroupStats {
    /// All counters at zero.
    pub open spec fn spec_zero() -> Self {
        GroupStats { member_additions: 0, member_removals: 0, messages_sent: 0, bytes_sent: 0, peak_member_count: 0 }
    }

    /// All counters at zero.
    pub fn new() -> (s: Self)
        ensures
            s == Self::spec_zero(),
    {
        GroupStats { member_additions: 0, member_removals: 0, messages_sent: 0, bytes_sent: 0, peak_member_count: 0 }
    }

    /// Raises the peak member count to `current_count` where that is higher.
    pub fn update_peak_members(&mut self, current_count: usize)
        ensures
            final(self).peak_member_count == if current_count > old(self).peak_member_count {
                current_count
            } else {
                old(self).peak_member_count
            },
            final(self).member_additions == old(self).member_additions,
            final(self).member_removals == old(self).member_removals,
            final(self).messages_sent == old(self).messages_sent,
            final(self).bytes_sent == old(self).bytes_sent,
    {
        if current_count > self.peak_member_count {
            self.peak_member_count = current_count;
        }
    }

    /// Member churn: additions plus removals.
    pub fn churn_rate(&self) -> (c: u64)
        requires
            self.member_additions + self.member_removals <= u64::MAX,
        ensures
            c == self.member_additions + self.member_removals,
    {
        self.member_additions + self.member_removals
    }
}

impl Default for GroupStats {
    /// All counters at zero.
    fn default() -> (s: Self)
        ensures
            s == Self::spec_zero(),
    {
        GroupStats::new()
    }
}

} // verus!
