//! Replication priorities, compression kinds and the priority rules shared by
//! the replication layers.

use vstd::prelude::*;

verus! {

/// Compression algorithms available for replication data.
#[derive(Debug, Clone, Copy, PartialEq, Eq, Structural)]
pub enum CompressionType {
    /// No compression - fastest but largest payload
    Uncompressed,
    /// LZ4 compression - good balance of speed and size
    Lz4,
    /// Zlib compression - smaller payload but slower
    Zlib,
    /// Delta compression - only send changes from previous state
    Delta,
    /// Quantized compression - reduce precision for smaller payload
    Quantized,
    /// High compression - maximum compression for low-priority data
    High,
    /// Custom game-specific compression
    Custom(u8),
}

/// Priority levels for replication data, from most to least urgent.
///
/// The derived order follows the declaration: `Critical < High < Normal < Low`,
/// so the *highest* priority of a set is its *smallest* element.
#[derive(Debug, Clone, Copy, PartialEq, Eq, Structural, Hash, PartialOrd, Ord)]
pub enum ReplicationPriority {
    /// Critical data that must be delivered immediately
    Critical,
    /// Important data with high priority
    High,
    /// Normal priority data
    Normal,
    /// Low priority data that can be delayed
    Low,
}

impl ReplicationPriority {
    /// Position of the priority in urgency order: 0 is `Critical`, 3 is `Low`.
    pub open spec fn spec_rank(self) -> int {
        match self {
            ReplicationPriority::Critical => 0,
            ReplicationPriority::High => 1,
            ReplicationPriority::Normal => 2,
            ReplicationPriority::Low => 3,
        }
    }

    /// The priority at a given urgency position (positions above 3 are `Low`).
    pub open spec fn from_rank(r: int) -> ReplicationPriority {
        if r <= 0 {
            ReplicationPriority::Critical
        } else if r == 1 {
            ReplicationPriority::High
        } else if r == 2 {
            ReplicationPriority::Normal
        } else {
            ReplicationPriority::Low
        }
    }

    /// Urgency position of this priority (0 = most urgent).
    pub fn rank(self) -> (r: u8)
        ensures
            r == self.spec_rank(),
    {
        match self {
            ReplicationPriority::Critical => 0,
            ReplicationPriority::High => 1,
            ReplicationPriority::Normal => 2,
            ReplicationPriority::Low => 3,
        }
    }

    /// Returns true when `self` is at least as urgent as `other`.
    pub fn at_least_as_urgent_as(self, other: ReplicationPriority) -> (b: bool)
        ensures
            b == (self.spec_rank() <= other.spec_rank()),
    {
        self.rank() <= other.rank()
    }
}

/// The more urgent of two priorities.
pub open spec fn spec_most_urgent(a: ReplicationPriority, b: ReplicationPriority) -> ReplicationPriority {
    if a.spec_rank() <= b.spec_rank() {
        a
    } else {
        b
    }
}

/// Returns the more urgent (smaller) of two priorities.
pub fn most_urgent(a: ReplicationPriority, b: ReplicationPriority) -> (p: ReplicationPriority)
    ensures
        p == spec_most_urgent(a, b),
        p.spec_rank() <= a.spec_rank(),
        p.spec_rank() <= b.spec_rank(),
        p == a || p == b,
{
    if a.rank() <= b.rank() {
        a
    } else {
        b
    }
}

/// Raises a priority by one level; `Critical` stays `Critical`.
pub open spec fn spec_escalate(p: ReplicationPriority) -> ReplicationPriority {
    ReplicationPriority::from_rank(p.spec_rank() - 1)
}

/// Raises a priority by one level: Low to Normal, Normal to High,
/// High to Critical, and Critical stays Critical.
pub fn escalate(p: ReplicationPriority) -> (r: ReplicationPriority)
    ensures
        r == spec_escalate(p),
{
    match p {
        ReplicationPriority::Low => ReplicationPriority::Normal,
        ReplicationPriority::Normal => ReplicationPriority::High,
        ReplicationPriority::High => ReplicationPriority::Critical,
        ReplicationPriority::Critical => ReplicationPriority::Critical,
    }
}

/// The priority that a replication layer on a channel carries: channels 0 to 3
/// map to Critical, High, Normal and Low, and any other channel is Low.
pub open spec fn spec_channel_priority(channel: u8) -> ReplicationPriority {
    ReplicationPriority::from_rank(channel as int)
}

/// Priority of a replication layer on the given channel.
pub fn channel_priority(channel: u8) -> (p: ReplicationPriority)
    ensures
        p == spec_channel_priority(channel),
{
    match channel {
        0 => ReplicationPriority::Critical,
        1 => ReplicationPriority::High,
        2 => ReplicationPriority::Normal,
        _ => ReplicationPriority::Low,
    }
}

/// Error types for GORC operations.
#[derive(Debug)]
pub enum GorcError {
    Configuration(String),
    Serialization(String),
    ObjectNotFound { id: String },
    Channel(String),
    Network(String),
    InvalidOperation(String),
    CapacityExceeded(String),
}

/// Example mineral type for demo objects.
#[derive(Debug, Clone, Copy, PartialEq, Eq, Structural)]
pub enum MineralType {
    Platinum,
    Gold,
    Silver,
    Iron,
    Copper,
    Uranium,
}

impl Default for MineralType {
    /// The default mineral is iron.
    fn default() -> (m: Self)
        ensures
            m == MineralType::Iron,
    {
        MineralType::Iron
    }
}


/// Taking the more urgent of two priorities is commutative, associative and
/// idempotent, so the most urgent of several priorities does not depend on
/// the order in which they are combined.
pub proof fn law_most_urgent_is_order_free(a: ReplicationPriority, b: ReplicationPriority, c: ReplicationPriority)
    ensures
        spec_most_urgent(a, b) == spec_most_urgent(b, a),
        spec_most_urgent(spec_most_urgent(a, b), c) == spec_most_urgent(a, spec_most_urgent(b, c)),
        spec_most_urgent(a, a) == a,
{
}

/// Raising a priority makes it one level more urgent, except that Critical
/// stays Critical.
pub proof fn law_escalate_raises_one_level(p: ReplicationPriority)
    ensures
        spec_escalate(p).spec_rank() == if p == ReplicationPriority::Critical {
            0
        } else {
            p.spec_rank() - 1
        },
{
}

/// Channel priorities fall with the channel number: channel 0 is `Critical`,
/// a later channel is never more urgent than an earlier one, and every
/// channel from 3 on is `Low`.
pub proof fn law_channel_priority_falls_with_channel(a: u8, b: u8)
    ensures
        spec_channel_priority(0) == ReplicationPriority::Critical,
        spec_channel_priority(1) == ReplicationPriority::High,
        spec_channel_priority(2) == ReplicationPriority::Normal,
        a <= b ==> spec_channel_priority(a).spec_rank() <= spec_channel_priority(b).spec_rank(),
        a >= 3 ==> spec_channel_priority(a) == ReplicationPriority::Low,
{
}

} // verus!
