use horizon_event_system::config::{check_batch_size, check_general, check_spatial_sizes, tune_for_system, ConfigRule, VirtualizationMode};
use horizon_event_system::events::{
    client_event_key, core_event_key, count_handlers_by_category, handler_category, is_gorc_event_key, plugin_event_key,
    starts_with, decimal_text, gorc_instance_event_key, HandlerCategory,
};
use horizon_event_system::layers::{estimated_layer_size, lists_property, shares_property};
use horizon_event_system::lod::{GroupStats, LodLevel, MulticastGroupId};
use horizon_event_system::lod_rooms::LodRoomMembers;
use horizon_event_system::multicast::{MulticastError, MulticastGroup, DEFAULT_MAX_MEMBERS};
use horizon_event_system::priority::{channel_priority, escalate, most_urgent, CompressionType, MineralType, ReplicationPriority};
use horizon_event_system::queue::{PriorityUpdateQueue, QueueLimits, ReplicationUpdate, DEFAULT_LANE_CAPACITY};
use horizon_event_system::subscription::{
    combine_priorities, interest_priority, relationship_priority, ActivityPattern, InterestLevel, RelationshipSubscription,
    SubscriptionStats,
};
use horizon_event_system::types::{AuthenticationStatus, GorcObjectId, PlayerId, RegionId};
use horizon_event_system::utils::{current_timestamp, horizon_build_info, timestamp_from_reading, ABI_VERSION};
use horizon_event_system::{
    check_layer_channels, default_gorc_config, GorcGeneralConfig, LayerChannelFault, MonitoringConfig, MulticastRegistry,
};
use std::collections::HashSet;

const CRITICAL: ReplicationPriority = ReplicationPriority::Critical;
const HIGH: ReplicationPriority = ReplicationPriority::High;
const NORMAL: ReplicationPriority = ReplicationPriority::Normal;
const LOW: ReplicationPriority = ReplicationPriority::Low;

fn update(object: u128, priority: ReplicationPriority, sequence: u32, data: Vec<u8>) -> ReplicationUpdate {
    ReplicationUpdate {
        object_id: GorcObjectId(object),
        object_type: "Asteroid".to_string(),
        channel: 0,
        data,
        priority,
        sequence,
        timestamp: 0,
        compression: CompressionType::Uncompressed,
    }
}

fn sequences(updates: &[ReplicationUpdate]) -> Vec<u32> {
    updates.iter().map(|u| u.sequence).collect()
}

// ---------------------------------------------------------------- priorities

#[test]
fn test_most_urgent_is_order_free() {
    let all = [CRITICAL, HIGH, NORMAL, LOW];
    for &a in &all {
        for &b in &all {
            assert_eq!(most_urgent(a, b), most_urgent(b, a));
            for &c in &all {
                assert_eq!(most_urgent(most_urgent(a, b), c), most_urgent(a, most_urgent(b, c)));
            }
        }
        assert_eq!(most_urgent(a, a), a);
    }
    assert_eq!(most_urgent(LOW, HIGH), HIGH);
    assert_eq!(most_urgent(CRITICAL, NORMAL), CRITICAL);
}

#[test]
fn test_escalate_raises_one_level() {
    assert_eq!(escalate(LOW), NORMAL);
    assert_eq!(escalate(NORMAL), HIGH);
    assert_eq!(escalate(HIGH), CRITICAL);
    assert_eq!(escalate(CRITICAL), CRITICAL);
}

#[test]
fn test_channel_priority_and_rank() {
    assert_eq!(channel_priority(0), CRITICAL);
    assert_eq!(channel_priority(1), HIGH);
    assert_eq!(channel_priority(2), NORMAL);
    assert_eq!(channel_priority(3), LOW);
    assert_eq!(channel_priority(7), LOW);
    assert_eq!(CRITICAL.rank(), 0);
    assert_eq!(LOW.rank(), 3);
    assert!(HIGH.at_least_as_urgent_as(NORMAL));
    assert!(!LOW.at_least_as_urgent_as(NORMAL));
}

#[test]
fn test_mineral_type_default() {
    assert_eq!(MineralType::default(), MineralType::Iron);
    assert_eq!(AuthenticationStatus::default(), AuthenticationStatus::Unauthenticated);
}

// --------------------------------------------------------------------- queue

#[test]
fn test_queue_pops_most_urgent_first() {
    let mut q = PriorityUpdateQueue::new(QueueLimits::new());
    q.push(update(1, ReplicationPriority::Low, 1, vec![]));
    q.push(update(2, ReplicationPriority::Critical, 2, vec![]));
    q.push(update(3, ReplicationPriority::Normal, 3, vec![]));
    q.push(update(4, ReplicationPriority::High, 4, vec![]));
    q.push(update(5, ReplicationPriority::Critical, 5, vec![]));
    assert_eq!(q.len(), 5);
    assert_eq!(q.peek().map(|u| u.sequence), Some(2));
    let mut order = Vec::new();
    while let Some(u) = q.pop() {
        order.push(u.sequence);
    }
    assert_eq!(order, vec![2, 5, 4, 3, 1]);
    assert!(q.is_empty());
    assert!(q.pop().is_none());
}

#[test]
fn test_queue_drops_oldest_of_full_lane() {
    let mut limits = QueueLimits::new();
    limits.set(ReplicationPriority::High, 2);
    let mut q = PriorityUpdateQueue::new(limits);
    assert!(q.push(update(1, ReplicationPriority::High, 1, vec![])));
    assert!(q.push(update(1, ReplicationPriority::High, 2, vec![])));
    assert!(q.push(update(1, ReplicationPriority::High, 3, vec![])));
    assert_eq!(q.priority_len(ReplicationPriority::High), 2);
    assert_eq!(q.len(), 2);
    let drained = q.drain(10);
    assert_eq!(sequences(&drained), vec![2, 3]);
}

#[test]
fn test_queue_zero_capacity_lane_keeps_newest() {
    let mut limits = QueueLimits::new();
    limits.set(ReplicationPriority::Low, 0);
    let mut q = PriorityUpdateQueue::new(limits);
    q.push(update(1, ReplicationPriority::Low, 1, vec![]));
    q.push(update(1, ReplicationPriority::Low, 2, vec![]));
    assert_eq!(q.priority_len(ReplicationPriority::Low), 1);
    assert_eq!(q.len(), 1);
    assert_eq!(q.pop().map(|u| u.sequence), Some(2));
}

#[test]
fn test_queue_default_lane_capacity() {
    let limits = QueueLimits::new();
    assert_eq!(limits.capacity(ReplicationPriority::Normal), DEFAULT_LANE_CAPACITY);
    let mut q = PriorityUpdateQueue::new(limits);
    for i in 0..150u32 {
        q.push(update(1, ReplicationPriority::Normal, i, vec![]));
    }
    assert_eq!(q.len(), 100);
    assert_eq!(q.peek().map(|u| u.sequence), Some(50));
}

#[test]
fn test_queue_drain_and_clear() {
    let mut q = PriorityUpdateQueue::new(QueueLimits::new());
    for i in 0..4u32 {
        q.push(update(1, ReplicationPriority::Normal, i, vec![]));
    }
    q.push(update(1, ReplicationPriority::Critical, 9, vec![]));
    let first = q.drain(2);
    assert_eq!(sequences(&first), vec![9, 0]);
    assert_eq!(q.len(), 3);
    q.clear();
    assert!(q.is_empty());
    assert_eq!(q.priority_len(ReplicationPriority::Normal), 0);
    assert!(q.drain(3).is_empty());
}

// ------------------------------------------------------------------------ lod

#[test]
fn test_lod_levels() {
    assert_eq!(LodLevel::Ultra.priority(), ReplicationPriority::Critical);
    assert_eq!(LodLevel::High.priority(), ReplicationPriority::High);
    assert_eq!(LodLevel::Medium.priority(), ReplicationPriority::Normal);
    assert_eq!(LodLevel::Low.priority(), ReplicationPriority::Low);
    assert_eq!(LodLevel::Minimal.priority(), ReplicationPriority::Low);
    assert_eq!(LodLevel::Ultra.upgrade(), None);
    assert_eq!(LodLevel::Minimal.downgrade(), None);
    for l in [LodLevel::Ultra, LodLevel::High, LodLevel::Medium, LodLevel::Low, LodLevel::Minimal] {
        if let Some(u) = l.upgrade() {
            assert_eq!(u.downgrade(), Some(l));
        }
        if let Some(d) = l.downgrade() {
            assert_eq!(d.upgrade(), Some(l));
        }
    }
}

#[test]
fn test_group_stats_peak_and_churn() {
    let mut stats = GroupStats::new();
    stats.update_peak_members(5);
    stats.update_peak_members(3);
    assert_eq!(stats.peak_member_count, 5);
    stats.member_additions = 7;
    stats.member_removals = 2;
    assert_eq!(stats.churn_rate(), 9);
}

#[test]
fn test_multicast_group_id_new_is_random() {
    let a = MulticastGroupId::new();
    let b = MulticastGroupId::new();
    assert_ne!(a, b);
}

// ------------------------------------------------------------------ multicast

fn channels(list: &[u8]) -> HashSet<u8> {
    list.iter().copied().collect()
}

#[test]
fn test_multicast_group_membership_and_capacity() {
    let mut g = MulticastGroup::with_capacity("squad".to_string(), channels(&[0, 1]), ReplicationPriority::High, 2);
    let a = PlayerId(1);
    let b = PlayerId(2);
    let c = PlayerId(3);
    assert!(matches!(g.add_member(a), Ok(true)));
    assert!(matches!(g.add_member(a), Ok(false)));
    assert!(matches!(g.add_member(b), Ok(true)));
    assert!(g.is_full());
    assert!(matches!(g.add_member(c), Err(MulticastError::GroupCapacityExceeded)));
    assert_eq!(g.member_count(), 2);
    assert!(g.remove_member(a));
    assert!(!g.remove_member(a));
    assert!(!g.contains_member(a));
    assert_eq!(g.stats.member_additions, 2);
    assert_eq!(g.stats.member_removals, 1);
    assert!(g.handles_channel(1));
    g.add_channel(3);
    assert!(g.handles_channel(3));
    assert!(g.remove_channel(0));
    assert!(!g.handles_channel(0));
    g.record_broadcast(100);
    assert_eq!(g.stats.messages_sent, 1);
    assert_eq!(g.stats.bytes_sent, 100);
    g.clear_members();
    assert!(g.is_empty());
}

#[test]
fn test_multicast_group_default_capacity() {
    let g = MulticastGroup::new("all".to_string(), channels(&[0]), ReplicationPriority::Normal);
    assert_eq!(g.max_members, DEFAULT_MAX_MEMBERS);
    assert_eq!(g.max_members, 1000);
    assert!(g.get_members().is_empty());
}

#[test]
fn test_add_then_remove_member_restores() {
    let mut g = MulticastGroup::new("g".to_string(), channels(&[0]), ReplicationPriority::Normal);
    g.add_member(PlayerId(10)).unwrap();
    let before: HashSet<u128> = g.members.clone();
    g.add_member(PlayerId(11)).unwrap();
    g.remove_member(PlayerId(11));
    assert_eq!(g.members, before);
}

#[test]
fn test_registry_indexes_follow_membership() {
    let mut r = MulticastRegistry::new();
    let g1 = r.create_group("a".to_string(), channels(&[0, 1]), ReplicationPriority::High);
    let g2 = r.create_group("b".to_string(), channels(&[1]), ReplicationPriority::Low);
    assert_eq!(g1, MulticastGroupId(1));
    assert_eq!(g2, MulticastGroupId(2));
    let p = PlayerId(42);
    assert!(matches!(r.add_player_to_group(p, g1), Ok(true)));
    assert!(matches!(r.add_player_to_group(p, g2), Ok(true)));
    let mut groups: Vec<u64> = r.get_player_groups(p).iter().map(|g| g.0).collect();
    groups.sort();
    assert_eq!(groups, vec![1, 2]);
    let mut on1: Vec<u64> = r.get_groups_for_channel(1).iter().map(|g| g.0).collect();
    on1.sort();
    assert_eq!(on1, vec![1, 2]);
    assert_eq!(r.get_groups_for_channel(0).iter().map(|g| g.0).collect::<Vec<_>>(), vec![1]);
    assert!(matches!(r.remove_player_from_group(p, g1), Ok(true)));
    assert_eq!(r.get_player_groups(p).iter().map(|g| g.0).collect::<Vec<_>>(), vec![2]);
    assert_eq!(r.get_stats().total_players, 1);
}

#[test]
fn test_registry_unknown_group_errors() {
    let mut r = MulticastRegistry::new();
    let missing = MulticastGroupId(99);
    assert!(matches!(r.add_player_to_group(PlayerId(1), missing), Err(MulticastError::GroupNotFound { id }) if id == missing));
    assert!(matches!(r.remove_player_from_group(PlayerId(1), missing), Err(MulticastError::GroupNotFound { .. })));
    assert!(matches!(r.destroy_group(missing), Err(MulticastError::GroupNotFound { .. })));
    assert!(matches!(r.broadcast_to_group(missing, 10), Err(MulticastError::GroupNotFound { .. })));
    assert!(matches!(r.add_player_to_lod_room(PlayerId(1), missing), Err(MulticastError::GroupNotFound { .. })));
}

#[test]
fn test_registry_create_then_destroy_restores() {
    let mut r = MulticastRegistry::new();
    let keep = r.create_group("keep".to_string(), channels(&[2]), ReplicationPriority::Normal);
    r.add_player_to_group(PlayerId(5), keep).unwrap();
    let temp = r.create_group("temp".to_string(), channels(&[2, 3]), ReplicationPriority::Normal);
    r.add_player_to_group(PlayerId(5), temp).unwrap();
    assert_eq!(r.group_count(), 2);
    r.destroy_group(temp).unwrap();
    assert_eq!(r.group_count(), 1);
    assert!(r.get_group(temp).is_none());
    assert_eq!(r.get_player_groups(PlayerId(5)).iter().map(|g| g.0).collect::<Vec<_>>(), vec![keep.0]);
    assert!(r.get_groups_for_channel(3).is_empty());
    assert_eq!(r.get_groups_for_channel(2).iter().map(|g| g.0).collect::<Vec<_>>(), vec![keep.0]);
    assert_eq!(r.get_stats().groups_destroyed, 1);
    let next = r.create_group("next".to_string(), channels(&[2]), ReplicationPriority::Normal);
    assert_eq!(next.0, 3);
}

#[test]
fn test_registry_remove_player_and_optimize() {
    let mut r = MulticastRegistry::new();
    let a = r.create_group("a".to_string(), channels(&[0]), ReplicationPriority::High);
    let b = r.create_group("b".to_string(), channels(&[0]), ReplicationPriority::High);
    let c = r.create_group("c".to_string(), channels(&[0]), ReplicationPriority::High);
    r.add_player_to_group(PlayerId(1), a).unwrap();
    r.add_player_to_group(PlayerId(1), b).unwrap();
    r.add_player_to_group(PlayerId(2), b).unwrap();
    assert_eq!(r.remove_player(PlayerId(1)).unwrap(), 2);
    assert!(r.get_player_groups(PlayerId(1)).is_empty());
    assert_eq!(r.get_group(b).unwrap().member_count(), 1);
    let removed = r.optimize();
    assert_eq!(removed, 2);
    assert!(r.get_group(a).is_none());
    assert!(r.get_group(c).is_none());
    assert!(r.get_group(b).is_some());
}

#[test]
fn test_registry_broadcast_and_rooms() {
    let mut r = MulticastRegistry::new();
    let g = r.create_group("g".to_string(), channels(&[0]), ReplicationPriority::High);
    r.add_player_to_group(PlayerId(1), g).unwrap();
    r.add_player_to_group(PlayerId(2), g).unwrap();
    assert_eq!(r.broadcast_to_group(g, 64).unwrap(), 2);
    assert_eq!(r.get_stats().messages_sent, 1);
    assert_eq!(r.get_stats().bytes_sent, 64);
    assert_eq!(r.get_group(g).unwrap().stats.bytes_sent, 64);
    let room = r.create_lod_room();
    assert_eq!(room.0, 2);
    r.add_player_to_lod_room(PlayerId(1), room).unwrap();
    assert!(r.get_player_groups(PlayerId(1)).iter().any(|x| *x == room));
    assert!(matches!(r.remove_player(PlayerId(1)), Err(MulticastError::GroupNotFound { .. })));
    r.destroy_group(room).unwrap();
}

// ------------------------------------------------------------ subscriptions

#[test]
fn test_relationship_subscription() {
    let mut rel_sub = RelationshipSubscription::new("team".to_string());
    let player_id = PlayerId::new();

    rel_sub.add_player(player_id);
    assert!(rel_sub.contains_player(player_id));

    // Team members should get high priority on metadata channel
    assert_eq!(rel_sub.get_channel_priority(3), ReplicationPriority::High);
}

#[test]
fn test_relationship_channel_tables() {
    let team = RelationshipSubscription::new("team".to_string());
    let guild = RelationshipSubscription::new("guild".to_string());
    let friend = RelationshipSubscription::new("friend".to_string());
    let other = RelationshipSubscription::new("rival".to_string());
    let row = |s: &RelationshipSubscription| (0..4u8).map(|c| s.get_channel_priority(c)).collect::<Vec<_>>();
    assert_eq!(row(&team), vec![CRITICAL, HIGH, NORMAL, HIGH]);
    assert_eq!(row(&guild), vec![HIGH, NORMAL, LOW, NORMAL]);
    assert_eq!(row(&friend), vec![NORMAL, NORMAL, LOW, HIGH]);
    assert_eq!(row(&other), vec![LOW, LOW, LOW, LOW]);
    assert_eq!(team.get_channel_priority(9), LOW);
}

#[test]
fn test_relationship_priority_first_match() {
    let mut guild = RelationshipSubscription::new("guild".to_string());
    let mut team = RelationshipSubscription::new("team".to_string());
    guild.add_player(PlayerId(7));
    team.add_player(PlayerId(7));
    team.remove_player(PlayerId(8));
    let subs = vec![guild, team];
    assert_eq!(relationship_priority(&subs, PlayerId(7), 0), ReplicationPriority::High);
    assert_eq!(relationship_priority(&subs, PlayerId(8), 0), ReplicationPriority::Low);
}

#[test]
fn test_interest_priority_rules() {
    assert_eq!(interest_priority(None, true, true, 0), NORMAL);
    assert_eq!(interest_priority(Some(InterestLevel::High), false, false, 0), HIGH);
    assert_eq!(interest_priority(Some(InterestLevel::High), true, false, 1), CRITICAL);
    assert_eq!(interest_priority(Some(InterestLevel::NoInterest), false, true, 0), NORMAL);
    assert_eq!(interest_priority(Some(InterestLevel::Low), false, true, 1), LOW);
    assert_eq!(interest_priority(Some(InterestLevel::High), false, true, 0), HIGH);
    assert_eq!(interest_priority(Some(InterestLevel::VeryHigh), true, false, 0), CRITICAL);
    assert_eq!(InterestLevel::Medium.to_priority(), NORMAL);
}

#[test]
fn test_combined_priority_is_most_urgent() {
    assert_eq!(combine_priorities(LOW, NORMAL, HIGH), HIGH);
    assert_eq!(combine_priorities(CRITICAL, LOW, LOW), CRITICAL);
    assert_eq!(combine_priorities(LOW, LOW, LOW), LOW);
}

#[test]
fn test_activity_pattern_average() {
    let mut a = ActivityPattern::new();
    assert!(!a.is_frequent());
    a.record_interaction(100, 5);
    assert_eq!(a.interaction_count, 1);
    assert_eq!(a.avg_duration_ms, 100);
    a.record_interaction(201, 9);
    assert_eq!(a.avg_duration_ms, 150);
    assert_eq!(a.last_interaction_ms, Some(9));
    assert!(a.is_frequent());
}

#[test]
fn test_subscription_stats_default() {
    let s = SubscriptionStats::default();
    assert_eq!(s.proximity_recalculations, 0);
    assert_eq!(s.relationship_subscriptions, 0);
}

// -------------------------------------------------------------------- config

#[test]
fn test_default_configs() {
    let c = default_gorc_config();
    assert_eq!(c.max_objects, 10000);
    assert_eq!(c.default_compression, CompressionType::Lz4);
    assert!(c.adaptive_frequency);
    assert_eq!(c.optimization_level, 2);
    let g = GorcGeneralConfig::default();
    assert_eq!((g.max_objects, g.max_players, g.max_channels_per_object), (10000, 1000, 8));
    let m = MonitoringConfig::default();
    assert_eq!(m.stats_interval_ms, 10000);
    assert_eq!(m.slow_operation_threshold_us, 1000);
}

#[test]
fn test_config_rules() {
    let mut g = GorcGeneralConfig::default();
    assert!(check_general(&g).is_none());
    g.max_channels_per_object = 9;
    assert_eq!(check_general(&g), Some(ConfigRule::TooManyChannels));
    g.max_players = 0;
    assert_eq!(check_general(&g), Some(ConfigRule::MaxPlayersZero));
    g.max_objects = 0;
    assert_eq!(check_general(&g), Some(ConfigRule::MaxObjectsZero));
    assert_eq!(check_spatial_sizes(0, 0), Some(ConfigRule::LeafCapacityZero));
    assert_eq!(check_spatial_sizes(4, 0), Some(ConfigRule::RebuildThresholdZero));
    assert_eq!(check_spatial_sizes(4, 1), None);
    assert_eq!(check_batch_size(0), Some(ConfigRule::BatchSizeZero));
    assert_eq!(check_batch_size(1), None);
    assert_eq!(ConfigRule::TooManyChannels.message(), "max_channels_per_object cannot exceed 8");
    assert_eq!(ConfigRule::BatchSizeZero.message(), "max_batch_size must be > 0");
}

#[test]
fn test_tune_for_system() {
    let g = GorcGeneralConfig::default();
    let small = tune_for_system(&g, 2, 4, 50);
    assert_eq!(small.max_objects, 4000);
    assert_eq!(small.max_players, 400);
    assert_eq!(small.virtualization, VirtualizationMode::Disabled);
    assert_eq!((small.max_objects_per_leaf, small.rebuild_threshold, small.enable_caching), (32, 2000, false));
    assert!(!small.high_load_network);
    let big = tune_for_system(&g, 16, 32, 5000);
    assert_eq!(big.max_objects, 10000);
    assert_eq!(big.max_players, 1000);
    assert_eq!(big.virtualization, VirtualizationMode::Aggressive);
    assert_eq!((big.max_objects_per_leaf, big.rebuild_threshold, big.enable_caching), (128, 10000, true));
    assert!(big.high_load_network);
    let mid = tune_for_system(&g, 1, 8, 500);
    assert_eq!(mid.virtualization, VirtualizationMode::Standard);
    assert_eq!(mid.max_objects_per_leaf, 64);
    assert_eq!(mid.max_players, 400);
    // tuned settings stay valid
    for t in [small, big, mid] {
        let tuned = GorcGeneralConfig { max_objects: t.max_objects, max_players: t.max_players, ..g };
        assert!(check_general(&tuned).is_none());
        assert!(check_spatial_sizes(t.max_objects_per_leaf, t.rebuild_threshold).is_none());
        assert!(t.max_objects <= g.max_objects && t.max_players <= g.max_players);
    }
}

#[test]
fn test_tuning_without_cores_zeroes_capacity() {
    let g = GorcGeneralConfig::default();
    let t = tune_for_system(&g, 0, 64, 10);
    assert_eq!(t.max_objects, 0);
    let tuned = GorcGeneralConfig { max_objects: t.max_objects, max_players: t.max_players, ..g };
    assert_eq!(check_general(&tuned), Some(ConfigRule::MaxObjectsZero));
}

// -------------------------------------------------------------------- events

#[test]
fn test_event_keys_route_to_their_category() {
    let core = core_event_key("player_connected");
    assert_eq!(core, "core:player_connected");
    assert_eq!(handler_category(&core), Some(HandlerCategory::Core));
    let client = client_event_key("chat", "message");
    assert_eq!(client, "client:chat:message");
    assert_eq!(handler_category(&client), Some(HandlerCategory::Client));
    let plugin = plugin_event_key("combat", "hit");
    assert_eq!(plugin, "plugin:combat:hit");
    assert_eq!(handler_category(&plugin), Some(HandlerCategory::Plugin));
    assert_eq!(handler_category("gorc_instance:Player:0:move"), Some(HandlerCategory::GorcInstance));
    assert_eq!(handler_category("gorc:Player:0:move"), Some(HandlerCategory::Gorc));
    assert_eq!(handler_category("other:thing"), None);
    assert!(is_gorc_event_key("gorc_instance:x"));
    assert!(!is_gorc_event_key("core:gorc"));
    assert!(starts_with("abc", "ab"));
    assert!(!starts_with("ab", "abc"));
}

#[test]
fn test_count_handlers_by_category() {
    let entries = vec![
        ("core:tick".to_string(), 2usize),
        ("client:chat:message".to_string(), 1),
        ("plugin:combat:hit".to_string(), 3),
        ("gorc_instance:Player:0:move".to_string(), 4),
        ("gorc:Player:1:x".to_string(), 5),
        ("misc".to_string(), 6),
    ];
    let s = count_handlers_by_category(&entries);
    assert_eq!(s.core_handlers, 2);
    assert_eq!(s.client_handlers, 1);
    assert_eq!(s.plugin_handlers, 3);
    assert_eq!(s.gorc_instance_handlers, 4);
    assert_eq!(s.gorc_handlers, 5);
}

// ------------------------------------------------------------- layers, misc

#[test]
fn test_layer_channel_checks() {
    assert_eq!(check_layer_channels(&vec![0, 1, 2, 3]), None);
    assert_eq!(check_layer_channels(&vec![]), None);
    assert_eq!(check_layer_channels(&vec![0, 5, 1, 0]), Some(LayerChannelFault::Duplicate(0)));
    assert_eq!(check_layer_channels(&vec![0, 5, 1]), Some(LayerChannelFault::OutOfRange(5)));
    assert_eq!(check_layer_channels(&vec![7, 7]), Some(LayerChannelFault::Duplicate(7)));
    assert_eq!(estimated_layer_size(3), 160);
    assert_eq!(estimated_layer_size(0), 64);
}

#[test]
fn test_build_info_and_versions() {
    assert_eq!(horizon_build_info(), "Horizon Event System v0.10.0 with Rust compiler vunknown");
    assert_eq!(ABI_VERSION, "0.10.0:unknown");
}

#[test]
fn test_current_timestamp_reads_the_clock() {
    let t = current_timestamp();
    assert!(t > 1_600_000_000);
}

#[test]
fn test_player_id_parse_and_new() {
    let p = PlayerId::from_str("67e55044-10b1-426f-9247-bb680e5fe0c8").unwrap();
    assert_eq!(p.0, 0x67e5504410b1426f9247bb680e5fe0c8);
    assert!(PlayerId::from_str("not-a-uuid").is_err());
    assert_ne!(PlayerId::new(), PlayerId::new());
    assert_ne!(GorcObjectId::new(), GorcObjectId::new());
}

#[test]
fn test_player_id_text_round_trip() {
    let p = PlayerId::from_str("67E55044-10B1-426F-9247-BB680E5FE0C8").unwrap();
    assert_eq!(p.to_text(), "67e55044-10b1-426f-9247-bb680e5fe0c8");
    let q = PlayerId::new();
    assert_eq!(PlayerId::from_str(&q.to_text()).unwrap(), q);
    let r: PlayerId = "67e55044-10b1-426f-9247-bb680e5fe0c8".parse().unwrap();
    assert_eq!(r, p);
}

#[test]
fn layer_property_lists_are_searched_by_name() {
    let props = vec!["position".to_string(), "health".to_string()];
    assert!(lists_property(&props, "health"));
    assert!(!lists_property(&props, "velocity"));
    assert!(!lists_property(&Vec::new(), "health"));
    let other = vec!["velocity".to_string(), "health".to_string()];
    assert!(shares_property(&props, &other));
    assert!(!shares_property(&props, &vec!["velocity".to_string()]));
    assert!(!shares_property(&Vec::new(), &other));
}

#[test]
fn timestamp_from_reading_keeps_whole_seconds() {
    assert_eq!(timestamp_from_reading(Some((1_700_000_000, 999_999_999))), 1_700_000_000);
    assert_eq!(timestamp_from_reading(Some((0, 5))), 0);
    assert_eq!(timestamp_from_reading(None), 0);
}

#[test]
fn random_ids_are_version_4_uuids() {
    for _ in 0..16 {
        let ids = [PlayerId::new().0, RegionId::new().0, GorcObjectId::new().0, PlayerId::default().0];
        for v in ids {
            assert_eq!((v >> 76) & 0xf, 4);
            assert_eq!((v >> 62) & 0x3, 2);
        }
        assert_eq!((MulticastGroupId::new().0 >> 62) & 0x3, 2);
    }
}

#[test]
fn instance_event_keys_spell_the_channel_in_decimal() {
    assert_eq!(decimal_text(0), "0");
    assert_eq!(decimal_text(7), "7");
    assert_eq!(decimal_text(42), "42");
    assert_eq!(decimal_text(100), "100");
    assert_eq!(decimal_text(255), "255");
    assert_eq!(gorc_instance_event_key("Asteroid", 2, "moved"), "gorc_instance:Asteroid:2:moved");
    assert_eq!(handler_category(&gorc_instance_event_key("Ship", 13, "hit")), Some(HandlerCategory::GorcInstance));
}

fn sorted(mut v: Vec<PlayerId>) -> Vec<PlayerId> {
    v.sort_by_key(|p| p.0);
    v
}

#[test]
fn lod_room_members_follow_levels() {
    let mut room = LodRoomMembers::with_nested_levels(LodLevel::Medium);
    room.add_member(PlayerId(1), LodLevel::Medium);
    room.add_member(PlayerId(2), LodLevel::Ultra);
    room.add_member(PlayerId(2), LodLevel::Ultra);
    room.add_member(PlayerId(3), LodLevel::Low);
    assert_eq!(room.get_members_for_lod(LodLevel::Medium), vec![PlayerId(1)]);
    assert_eq!(room.get_members_for_lod(LodLevel::Ultra), vec![PlayerId(2)]);
    assert!(room.get_members_for_lod(LodLevel::Low).is_empty());
    assert_eq!(room.total_member_count(), 2);
    assert_eq!(sorted(room.get_all_members()), vec![PlayerId(1), PlayerId(2)]);
    room.update_member_position(PlayerId(2), LodLevel::High);
    assert!(room.get_members_for_lod(LodLevel::Ultra).is_empty());
    assert_eq!(room.get_members_for_lod(LodLevel::High), vec![PlayerId(2)]);
    room.optimize();
    room.add_member(PlayerId(4), LodLevel::Ultra);
    assert!(room.get_members_for_lod(LodLevel::Ultra).is_empty());
    room.remove_member(PlayerId(1));
    room.remove_member(PlayerId(2));
    assert!(room.is_empty());
    room.optimize();
    room.add_member(PlayerId(5), LodLevel::High);
    assert!(room.is_empty());
    room.add_member(PlayerId(5), LodLevel::Medium);
    assert!(!room.is_empty());
    let single = LodRoomMembers::new(LodLevel::Low);
    assert!(single.is_empty());
    assert_eq!(single.total_member_count(), 0);
}
