//! Subscription priority rules: relationship subscriptions (teams, guilds,
//! friends), interest levels, and how the proximity, relationship and
//! interest priorities of a subscriber combine.

use crate::priority::{escalate, most_urgent, spec_escalate, spec_most_urgent, ReplicationPriority};
use crate::types::PlayerId;
use std::collections::{HashMap, HashSet};
use vstd::prelude::*;

verus! {

/// Replication channel whose priority heavy combat activity raises.
pub const CRITICAL_CHANNEL: u8 = 0;

/// Types of subscription relationships.
#[derive(Debug, Clone, PartialEq, Eq, Hash)]
pub enum SubscriptionType {
    /// Subscription based on spatial proximity
    Proximity,
    /// Subscription based on relationships (team, guild, etc.)
    Relationship(String),
    /// Subscription based on player interest and activity
    Interest,
}

/// Level of interest in an object or area.
#[derive(Debug, Clone, Copy, PartialEq, Eq, Structural)]
pub enum InterestLevel {
    /// No interest
    NoInterest,
    /// Low interest
    Low,
    /// Medium interest
    Medium,
    /// High interest
    High,
    /// Very high interest (actively interacting)
    VeryHigh,
}

impl InterestLevel {
    /// The replication priority an interest level calls for.
    pub open spec fn spec_to_priority(self) -> ReplicationPriority {
        match self {
            InterestLevel::NoInterest => ReplicationPriority::Low,
            InterestLevel::Low => ReplicationPriority::Low,
            InterestLevel::Medium => ReplicationPriority::Normal,
            InterestLevel::High => ReplicationPriority::High,
            InterestLevel::VeryHigh => ReplicationPriority::Critical,
        }
    }

    /// Converts interest level to replication priority.
    pub fn to_priority(self) -> (p: ReplicationPriority)
        ensures
            p == self.spec_to_priority(),
            self == InterestLevel::VeryHigh ==> p == ReplicationPriority::Critical,
            self == InterestLevel::High ==> p == ReplicationPriority::High,
            self == InterestLevel::Medium ==> p == ReplicationPriority::Normal,
            self == InterestLevel::Low || self == InterestLevel::NoInterest ==> p == ReplicationPriority::Low,
    {
        match self {
            InterestLevel::NoInterest => ReplicationPriority::Low,
            InterestLevel::Low => ReplicationPriority::Low,
            InterestLevel::Medium => ReplicationPriority::Normal,
            InterestLevel::High => ReplicationPriority::High,
            InterestLevel::VeryHigh => ReplicationPriority::Critical,
        }
    }
}

/// Default priority of a relationship kind on a channel. Teams get Critical,
/// High, Normal, High on channels 0 to 3; guilds High, Normal, Low, Normal;
/// friends Normal, Normal, Low, High; any other kind Low on all four.
/// Channels above 3 have no configured priority.
pub open spec fn spec_relationship_table(kind: Seq<char>, channel: u8) -> Option<ReplicationPriority> {
    if channel > 3 {
        None
    } else if kind == "team"@ {
        Some(
            if channel == 0 {
                ReplicationPriority::Critical
            } else if channel == 1 {
                ReplicationPriority::High
            } else if channel == 2 {
                ReplicationPriority::Normal
            } else {
                ReplicationPriority::High
            },
        )
    } else if kind == "guild"@ {
        Some(
            if channel == 0 {
                ReplicationPriority::High
            } else if channel == 1 {
                ReplicationPriority::Normal
            } else if channel == 2 {
                ReplicationPriority::Low
            } else {
                ReplicationPriority::Normal
            },
        )
    } else if kind == "friend"@ {
        Some(
            if channel == 0 || channel == 1 {
                ReplicationPriority::Normal
            } else if channel == 2 {
                ReplicationPriority::Low
            } else {
                ReplicationPriority::High
            },
        )
    } else {
        Some(ReplicationPriority::Low)
    }
}

/// Builds the channel table of a relationship kind from its four priorities.
fn channel_table(p0: ReplicationPriority, p1: ReplicationPriority, p2: ReplicationPriority, p3: ReplicationPriority) -> (m: HashMap<u8, ReplicationPriority>)
    ensures
        m@ == map![0u8 => p0, 1u8 => p1, 2u8 => p2, 3u8 => p3],
{
    let mut m: HashMap<u8, ReplicationPriority> = HashMap::new();
    m.insert(0, p0);
    m.insert(1, p1);
    m.insert(2, p2);
    m.insert(3, p3);
    assert(m@ =~= map![0u8 => p0, 1u8 => p1, 2u8 => p2, 3u8 => p3]);
    m
}

/// Relationship-based subscription (teams, guilds, friends, etc.).
#[derive(Debug)]
pub struct RelationshipSubscription {
    /// Type of relationship
    pub relationship_type: String,
    /// Related players, by identifier value
    pub related_players: HashSet<u128>,
    /// Channel priorities for this relationship
    pub channel_priorities: HashMap<u8, ReplicationPriority>,
}

impl RelationshipSubscription {
    /// Creates a relationship subscription with no players and the default
    /// channel priorities of its kind.
    pub fn new(relationship_type: String) -> (s: Self)
        ensures
            s.relationship_type@ == relationship_type@,
            s.related_players@ == Set::<u128>::empty(),
            forall|c: u8| #[trigger] s.channel_priorities@.contains_key(c) <==> c <= 3,
            forall|c: u8| c <= 3 ==> Some(#[trigger] s.channel_priorities@[c]) == spec_relationship_table(relationship_type@, c),
    {
        let team = "team".to_owned();
        let guild = "guild".to_owned();
        let friend = "friend".to_owned();
        proof {
            reveal_strlit("team");
            reveal_strlit("guild");
            reveal_strlit("friend");
        }
        let channel_priorities = if relationship_type == team {
            channel_table(
                ReplicationPriority::Critical,
                ReplicationPriority::High,
                ReplicationPriority::Normal,
                ReplicationPriority::High,
            )
        } else if relationship_type == guild {
            channel_table(
                ReplicationPriority::High,
                ReplicationPriority::Normal,
                ReplicationPriority::Low,
                ReplicationPriority::Normal,
            )
        } else if relationship_type == friend {
            channel_table(
                ReplicationPriority::Normal,
                ReplicationPriority::Normal,
                ReplicationPriority::Low,
                ReplicationPriority::High,
            )
        } else {
            channel_table(
                ReplicationPriority::Low,
                ReplicationPriority::Low,
                ReplicationPriority::Low,
                ReplicationPriority::Low,
            )
        };
        RelationshipSubscription { relationship_type, related_players: HashSet::new(), channel_priorities }
    }

    /// Adds a player to this relationship.
    pub fn add_player(&mut self, player_id: PlayerId)
        ensures
            final(self).related_players@ == old(self).related_players@.insert(player_id.0),
            final(self).relationship_type == old(self).relationship_type,
            final(self).channel_priorities == old(self).channel_priorities,
    {
        self.related_players.insert(player_id.0);
    }

    /// Removes a player from this relationship.
    pub fn remove_player(&mut self, player_id: PlayerId)
        ensures
            final(self).related_players@ == old(self).related_players@.remove(player_id.0),
            final(self).relationship_type == old(self).relationship_type,
            final(self).channel_priorities == old(self).channel_priorities,
    {
        self.related_players.remove(&player_id.0);
    }

    /// Checks if a player is part of this relationship.
    pub fn contains_player(&self, player_id: PlayerId) -> (b: bool)
        ensures
            b == self.related_players@.contains(player_id.0),
    {
        self.related_players.contains(&player_id.0)
    }

    /// The priority configured for a channel; `Low` where none is.
    pub open spec fn spec_channel_priority(&self, channel: u8) -> ReplicationPriority {
        if self.channel_priorities@.contains_key(channel) {
            self.channel_priorities@[channel]
        } else {
            ReplicationPriority::Low
        }
    }

    /// Gets the priority for a specific channel (`Low` where none is configured).
    pub fn get_channel_priority(&self, channel: u8) -> (p: ReplicationPriority)
        ensures
            p == self.spec_channel_priority(channel),
    {
        match self.channel_priorities.get(&channel) {
            Some(p) => *p,
            None => ReplicationPriority::Low,
        }
    }
}

/// The priority a subscriber's relationships give a target on a channel: that
/// of the first relationship containing the target, or `Low`.
pub open spec fn spec_relationship_priority(subs: Seq<RelationshipSubscription>, target: u128, channel: u8) -> ReplicationPriority
    decreases subs.len(),
{
    if subs.len() == 0 {
        ReplicationPriority::Low
    } else if subs[0].related_players@.contains(target) {
        subs[0].spec_channel_priority(channel)
    } else {
        spec_relationship_priority(subs.drop_first(), target, channel)
    }
}

/// Relationship-based priority of `target` for a subscriber with the given
/// relationships.
pub fn relationship_priority(subs: &Vec<RelationshipSubscription>, target: PlayerId, channel: u8) -> (p: ReplicationPriority)
    ensures
        p == spec_relationship_priority(subs@, target.0, channel),
{
    let mut i: usize = 0;
    assert(subs@.skip(0) =~= subs@);
    while i < subs.len()
        invariant
            0 <= i <= subs@.len(),
            spec_relationship_priority(subs@, target.0, channel) == spec_relationship_priority(subs@.skip(i as int), target.0, channel),
        decreases subs@.len() - i,
    {
        proof {
            assert(subs@.skip(i as int).drop_first() =~= subs@.skip(i + 1));
            assert(subs@.skip(i as int)[0] == subs@[i as int]);
        }
        if subs[i].contains_player(target) {
            return subs[i].get_channel_priority(channel);
        }
        i = i + 1;
    }
    ReplicationPriority::Low
}

/// Interest-based priority from what a subscriber recorded about players.
///
/// With no recorded interest in players the priority is `Normal`. Otherwise
/// the recorded level gives a base priority, raised by one level when the
/// target stands in the subscriber's focus area; failing that, on the
/// critical channel with heavy combat activity a `Low` or `Normal` base is
/// raised by one level.
pub open spec fn spec_interest_priority(level: Option<InterestLevel>, target_in_focus: bool, heavy_combat: bool, channel: u8) -> ReplicationPriority {
    match level {
        Option::None => ReplicationPriority::Normal,
        Option::Some(l) => {
            let base = l.spec_to_priority();
            if target_in_focus {
                spec_escalate(base)
            } else if channel == CRITICAL_CHANNEL && heavy_combat && (base == ReplicationPriority::Low
                || base == ReplicationPriority::Normal) {
                spec_escalate(base)
            } else {
                base
            }
        },
    }
}

/// Interest-based priority; `target_in_focus` and `heavy_combat` are the
/// outcomes of the focus-area and combat-frequency comparisons.
pub fn interest_priority(level: Option<InterestLevel>, target_in_focus: bool, heavy_combat: bool, channel: u8) -> (p: ReplicationPriority)
    ensures
        p == spec_interest_priority(level, target_in_focus, heavy_combat, channel),
        !target_in_focus && heavy_combat && channel == 0 ==> (level == Some(InterestLevel::Medium) ==> p
            == ReplicationPriority::High),
        !target_in_focus && heavy_combat && channel == 0 ==> (level == Some(InterestLevel::Low) ==> p
            == ReplicationPriority::Normal),
{
    match level {
        None => ReplicationPriority::Normal,
        Some(l) => {
            let base = l.to_priority();
            if target_in_focus {
                escalate(base)
            } else if channel == CRITICAL_CHANNEL && heavy_combat {
                match base {
                    ReplicationPriority::Low => ReplicationPriority::Normal,
                    ReplicationPriority::Normal => ReplicationPriority::High,
                    _ => base,
                }
            } else {
                base
            }
        },
    }
}

/// The combined subscription priority: the most urgent of the proximity,
/// relationship and interest priorities.
pub open spec fn spec_combined_priority(proximity: ReplicationPriority, relationship: ReplicationPriority, interest: ReplicationPriority) -> ReplicationPriority {
    spec_most_urgent(spec_most_urgent(proximity, relationship), interest)
}

/// Combines the three subscription priorities by taking the most urgent.
pub fn combine_priorities(proximity: ReplicationPriority, relationship: ReplicationPriority, interest: ReplicationPriority) -> (p: ReplicationPriority)
    ensures
        p == spec_combined_priority(proximity, relationship, interest),
        p.spec_rank() <= proximity.spec_rank(),
        p.spec_rank() <= relationship.spec_rank(),
        p.spec_rank() <= interest.spec_rank(),
        p == proximity || p == relationship || p == interest,
{
    most_urgent(most_urgent(proximity, relationship), interest)
}

/// Statistics for subscription management.
#[derive(Debug, Clone, Copy, PartialEq, Eq, Structural)]
pub struct SubscriptionStats {
    /// Number of active proximity subscriptions
    pub proximity_subscriptions: usize,
    /// Number of active relationship subscriptions
    pub relationship_subscriptions: usize,
    /// Number of active interest subscriptions
    pub interest_subscriptions: usize,
    /// Number of proximity recalculations performed
    pub proximity_recalculations: u64,
    /// Average subscription update time in microseconds
    pub avg_update_time_us: u64,
}

impl Default for SubscriptionStats {
    /// All counters at zero.
    fn default() -> (s: Self)
        ensures
            s == (SubscriptionStats {
                proximity_subscriptions: 0,
                relationship_subscriptions: 0,
                interest_subscriptions: 0,
                proximity_recalculations: 0,
                avg_update_time_us: 0,
            }),
    {
        SubscriptionStats {
            proximity_subscriptions: 0,
            relationship_subscriptions: 0,
            interest_subscriptions: 0,
            proximity_recalculations: 0,
            avg_update_time_us: 0,
        }
    }
}


/// Activity of a player with one kind of object: how often and how long
/// the player interacted with it.
#[derive(Debug, Clone, Copy, PartialEq, Eq, Structural)]
pub struct ActivityPattern {
    /// Number of interactions
    pub interaction_count: u32,
    /// Average interaction duration in milliseconds (rounded down)
    pub avg_duration_ms: u64,
    /// Clock reading (milliseconds) of the last interaction
    pub last_interaction_ms: Option<u64>,
}

impl ActivityPattern {
    /// A pattern with no interaction recorded.
    pub fn new() -> (p: Self)
        ensures
            p == (ActivityPattern { interaction_count: 0, avg_duration_ms: 0, last_interaction_ms: None }),
    {
        ActivityPattern { interaction_count: 0, avg_duration_ms: 0, last_interaction_ms: None }
    }

    /// Records an interaction of `duration_ms` milliseconds at clock reading
    /// `now_ms`, folding its duration into the running average.
    pub fn record_interaction(&mut self, duration_ms: u64, now_ms: u64)
        requires
            old(self).interaction_count < u32::MAX,
            old(self).avg_duration_ms * old(self).interaction_count + duration_ms <= u64::MAX,
        ensures
            final(self).interaction_count == old(self).interaction_count + 1,
            final(self).avg_duration_ms == (old(self).avg_duration_ms * old(self).interaction_count + duration_ms) / (
            old(self).interaction_count + 1),
            final(self).last_interaction_ms == Some(now_ms),
    {
        let previous = self.interaction_count as u64;
        self.interaction_count = self.interaction_count + 1;
        self.last_interaction_ms = Some(now_ms);
        proof {
            assert(self.avg_duration_ms * previous <= u64::MAX) by (nonlinear_arith)
                requires
                    self.avg_duration_ms * previous + duration_ms <= u64::MAX,
            ;
        }
        let total = self.avg_duration_ms * previous + duration_ms;
        self.avg_duration_ms = total / (self.interaction_count as u64);
    }

    /// Whether the interaction rate exceeds the heavy-activity threshold of
    /// 0.8 interactions per hour. The rate is taken as the interaction count,
    /// so it exceeds the threshold exactly when an interaction was recorded.
    pub fn is_frequent(&self) -> (b: bool)
        ensures
            b == (self.interaction_count > 0),
    {
        self.interaction_count > 0
    }
}

impl Default for ActivityPattern {
    /// A pattern with no interaction recorded.
    fn default() -> (p: Self)
        ensures
            p == (ActivityPattern { interaction_count: 0, avg_duration_ms: 0, last_interaction_ms: None }),
    {
        Self::new()
    }
}

/// How far up the interest scale a level stands: 0 for no interest, 4 for
/// very high interest (actively interacting).
pub open spec fn spec_interest_ordinal(l: InterestLevel) -> int {
    match l {
        InterestLevel::NoInterest => 0,
        InterestLevel::Low => 1,
        InterestLevel::Medium => 2,
        InterestLevel::High => 3,
        InterestLevel::VeryHigh => 4,
    }
}

/// Interest levels map monotonically onto replication priorities: a higher
/// interest never gets a less urgent priority, very high interest (actively
/// interacting) gets `Critical`, and each level from low interest upwards
/// gets a strictly more urgent priority than the level below it.
pub proof fn law_interest_priority_follows_interest(a: InterestLevel, b: InterestLevel)
    ensures
        InterestLevel::VeryHigh.spec_to_priority() == ReplicationPriority::Critical,
        spec_interest_ordinal(a) <= spec_interest_ordinal(b) ==> b.spec_to_priority().spec_rank()
            <= a.spec_to_priority().spec_rank(),
        1 <= spec_interest_ordinal(a) < spec_interest_ordinal(b) ==> b.spec_to_priority().spec_rank()
            < a.spec_to_priority().spec_rank(),
        a.spec_to_priority().spec_rank() == if spec_interest_ordinal(a) == 0 {
            3
        } else {
            4 - spec_interest_ordinal(a)
        },
{
}

/// On the critical channel under heavy combat, a target out of the focus
/// area whose interest gives a `Low` or `Normal` base priority is raised by
/// exactly one level (medium interest gives `High`, low interest `Normal`);
/// a more urgent base stays as it is.
pub proof fn law_combat_raises_low_and_normal_interest(l: InterestLevel)
    ensures
        ({
            let base = l.spec_to_priority();
            let p = spec_interest_priority(Some(l), false, true, CRITICAL_CHANNEL);
            &&& base.spec_rank() >= 2 ==> p.spec_rank() == base.spec_rank() - 1
            &&& base.spec_rank() < 2 ==> p == base
        }),
        spec_interest_priority(Some(InterestLevel::Medium), false, true, 0) == ReplicationPriority::High,
        spec_interest_priority(Some(InterestLevel::Low), false, true, 0) == ReplicationPriority::Normal,
        spec_interest_priority(Some(InterestLevel::NoInterest), false, true, 0) == ReplicationPriority::Normal,
{
}

/// The default relationship tables: a team mate gets `Critical` on the
/// critical channel and is strictly more urgent than a guild mate on every
/// channel; a friend is never more urgent than `High`; a relationship of any
/// other kind is `Low` everywhere; and no table has channels beyond 3.
pub proof fn law_relationship_tables(kind: Seq<char>, channel: u8)
    ensures
        spec_relationship_table("team"@, 0) == Some(ReplicationPriority::Critical),
        channel <= 3 ==> spec_relationship_table("team"@, channel)->0.spec_rank() < spec_relationship_table(
            "guild"@,
            channel,
        )->0.spec_rank(),
        channel <= 3 ==> spec_relationship_table("friend"@, channel)->0.spec_rank() >= 1,
        channel <= 3 && kind != "team"@ && kind != "guild"@ && kind != "friend"@ ==> spec_relationship_table(kind, channel)
            == Some(ReplicationPriority::Low),
        channel > 3 ==> spec_relationship_table(kind, channel) is None,
{
    reveal_strlit("team");
    reveal_strlit("guild");
    reveal_strlit("friend");
    assert("team"@ != "guild"@) by {
        assert("team"@.len() != "guild"@.len());
    }
    assert("team"@ != "friend"@) by {
        assert("team"@.len() != "friend"@.len());
    }
    assert("guild"@ != "friend"@) by {
        assert("guild"@.len() != "friend"@.len());
    }
}

} // verus!
