use horizon_event_system::network::{
    assemble_batch, compress_data, create_batch, decompress_data, default_network_config, flush_player_updates,
    prepare_payload, process_player_updates, smaller_payload, NetworkConfig, NetworkError, PlayerNetworkState,
    ReplicationBatch,
};
use horizon_event_system::object_registry::{ObjectTypeRegistry, RegistryCounters};
use horizon_event_system::dispatch::{broadcast_outcome, gorc_emit_targets, record_emission, tick_step, EmitFault, EventCounters};
use horizon_event_system::zone_clusters::find_overlapping_clusters;
use horizon_event_system::plugin::PluginError;
use horizon_event_system::priority::{CompressionType, ReplicationPriority};
use horizon_event_system::queue::{QueueLimits, ReplicationUpdate};
use horizon_event_system::scheduler::{core_layer_update, UpdateScheduler, UpdateSequencer};
use horizon_event_system::shutdown::ShutdownState;
use horizon_event_system::spatial_stats::{passes_player_filters, NodeStats, SpatialIndexStats};
use horizon_event_system::types::{GorcObjectId, PlayerId};
use horizon_event_system::virtualization::{VirtualZoneId, VirtualZoneRegistry, VirtualizationError, ZoneMember};
use horizon_event_system::zone_data::{PlayerDetailedData, PlayerMetadataData};
use std::io::Write;

fn update(priority: ReplicationPriority, sequence: u32, len: usize) -> ReplicationUpdate {
    ReplicationUpdate {
        object_id: GorcObjectId(1),
        object_type: "Player".to_string(),
        channel: 0,
        data: vec![7u8; len],
        priority,
        sequence,
        timestamp: 0,
        compression: CompressionType::Uncompressed,
    }
}

fn sequences(updates: &[ReplicationUpdate]) -> Vec<u32> {
    updates.iter().map(|u| u.sequence).collect()
}

fn batch_sequences(b: &ReplicationBatch) -> Vec<u32> {
    sequences(&b.updates)
}

// ------------------------------------------------------------------- batches

#[test]
fn test_batch_priority_is_most_urgent() {
    let updates = vec![
        update(ReplicationPriority::Low, 1, 10),
        update(ReplicationPriority::High, 2, 20),
        update(ReplicationPriority::Normal, 3, 5),
    ];
    let b = assemble_batch(PlayerId(9), updates, 0x1_0000_0005).unwrap();
    assert_eq!(b.priority, ReplicationPriority::High);
    assert_eq!(b.compressed_size, 35);
    assert_eq!(b.target_player, PlayerId(9));
    assert_eq!(b.timestamp, 0x1_0000_0005);
    assert_eq!(b.batch_id, 5);
    assert_eq!(batch_sequences(&b), vec![1, 2, 3]);
}

#[test]
fn test_empty_batch_is_refused() {
    assert!(matches!(assemble_batch(PlayerId(1), Vec::new(), 3), Err(NetworkError::InvalidConfiguration(_))));
    assert!(matches!(create_batch(PlayerId(1), Vec::new()), Err(NetworkError::InvalidConfiguration(_))));
    let b = create_batch(PlayerId(1), vec![update(ReplicationPriority::Low, 1, 4)]).unwrap();
    assert_eq!(b.batch_id, b.timestamp as u32);
    assert_eq!(b.priority, ReplicationPriority::Low);
}

// -------------------------------------------------------------- player state

fn state(now: u64) -> PlayerNetworkState {
    PlayerNetworkState::new(PlayerId(3), QueueLimits::new(), now)
}

#[test]
fn test_sequence_numbers_wrap() {
    let mut s = state(0);
    assert_eq!(s.next_sequence(), 1);
    assert_eq!(s.next_sequence(), 2);
    s.sequence_counter = u32::MAX;
    assert_eq!(s.next_sequence(), 0);
}

#[test]
fn test_bandwidth_window() {
    let mut s = state(1000);
    assert!(s.has_bandwidth(100, 200, 1500));
    s.consume_bandwidth(150);
    assert_eq!(s.stats.bytes_sent, 150);
    assert!(!s.has_bandwidth(100, 200, 1999));
    assert_eq!(s.bytes_sent_this_second, 150);
    // a second later the window starts afresh
    assert!(s.has_bandwidth(100, 200, 2000));
    assert_eq!(s.bytes_sent_this_second, 0);
    assert_eq!(s.last_bandwidth_reset_ms, 2000);
    // a clock reading before the window start never restarts it
    s.consume_bandwidth(190);
    assert!(!s.has_bandwidth(20, 200, 10));
}

#[test]
fn test_batch_lifecycle() {
    let mut s = state(0);
    assert!(!s.add_to_batch(update(ReplicationPriority::Low, 1, 1)));
    assert!(!s.should_send_batch(1, 0, 100));
    s.start_batch(100);
    assert!(s.add_to_batch(update(ReplicationPriority::Low, 1, 1)));
    assert!(!s.should_send_batch(2, 16, 110));
    assert!(s.should_send_batch(2, 16, 116));
    assert!(s.should_send_batch(1, 16, 101));
    assert!(!s.should_send_batch(2, 16, 50));
    let finished = s.finish_batch().unwrap();
    assert_eq!(sequences(&finished), vec![1]);
    assert!(s.current_batch.is_none());
    assert!(s.batch_start_ms.is_none());
    assert!(s.queue_update(update(ReplicationPriority::High, 4, 1)).is_ok());
    assert_eq!(s.update_queue.len(), 1);
}

fn config(max_bandwidth: u32, max_batch_size: usize, max_batch_age_ms: u64) -> NetworkConfig {
    NetworkConfig { max_bandwidth_per_player: max_bandwidth, max_batch_size, max_batch_age_ms, ..NetworkConfig::default() }
}

#[test]
fn test_process_moves_queue_into_batch_by_urgency() {
    let mut s = state(0);
    s.queue_update(update(ReplicationPriority::Low, 1, 3)).unwrap();
    s.queue_update(update(ReplicationPriority::Critical, 2, 3)).unwrap();
    s.queue_update(update(ReplicationPriority::Normal, 3, 3)).unwrap();
    let mut batches = Vec::new();
    process_player_updates(&mut s, &config(10_000, 50, 16), 5, &mut batches).unwrap();
    assert!(batches.is_empty());
    assert!(s.update_queue.is_empty());
    assert_eq!(sequences(s.current_batch.as_ref().unwrap()), vec![2, 3, 1]);
    assert_eq!(s.batch_start_ms, Some(5));
    // the batch is now due by age and is handed out
    process_player_updates(&mut s, &config(10_000, 50, 16), 30, &mut batches).unwrap();
    assert_eq!(batches.len(), 1);
    assert_eq!(batch_sequences(&batches[0]), vec![2, 3, 1]);
    assert_eq!(batches[0].priority, ReplicationPriority::Critical);
    assert_eq!(batches[0].compressed_size, 9);
    assert!(s.current_batch.is_none());
}

#[test]
fn test_process_waits_for_bandwidth() {
    let mut s = state(0);
    s.consume_bandwidth(900);
    s.queue_update(update(ReplicationPriority::High, 1, 3)).unwrap();
    let mut batches = Vec::new();
    process_player_updates(&mut s, &config(1000, 50, 16), 10, &mut batches).unwrap();
    assert_eq!(s.update_queue.len(), 1);
    assert!(s.current_batch.as_ref().unwrap().is_empty());
    // after the window is over the queue drains
    process_player_updates(&mut s, &config(1000, 50, 100), 1000, &mut batches).unwrap();
    assert!(s.update_queue.is_empty());
    assert_eq!(s.bytes_sent_this_second, 0);
    assert_eq!(sequences(s.current_batch.as_ref().unwrap()), vec![1]);
    assert!(batches.is_empty());
}

#[test]
fn test_processing_conserves_updates() {
    let mut s = state(0);
    s.start_batch(0);
    s.add_to_batch(update(ReplicationPriority::Low, 1, 1));
    s.queue_update(update(ReplicationPriority::Normal, 2, 1)).unwrap();
    s.queue_update(update(ReplicationPriority::Critical, 3, 1)).unwrap();
    let mut batches = Vec::new();
    process_player_updates(&mut s, &config(10_000, 1, 16), 5, &mut batches).unwrap();
    let mut all: Vec<u32> = batches.iter().flat_map(|b| batch_sequences(b)).collect();
    all.extend(sequences(s.current_batch.as_ref().unwrap()));
    all.extend(sequences(&s.update_queue.drain(10)));
    assert_eq!(all, vec![1, 3, 2]);
    assert_eq!(batch_sequences(&batches[0]), vec![1]);
}

#[test]
fn test_flush_hands_out_open_batch() {
    let mut s = state(0);
    s.queue_update(update(ReplicationPriority::Normal, 1, 2)).unwrap();
    s.queue_update(update(ReplicationPriority::High, 2, 2)).unwrap();
    let mut batches = Vec::new();
    flush_player_updates(&mut s, &config(10_000, 50, 16), 1, &mut batches).unwrap();
    assert_eq!(batches.len(), 1);
    assert_eq!(batch_sequences(&batches[0]), vec![2, 1]);
    assert_eq!(batches[0].target_player, PlayerId(3));
    assert!(s.current_batch.is_none());
    assert!(s.update_queue.is_empty());
    // nothing left: a second flush hands out nothing
    flush_player_updates(&mut s, &config(10_000, 50, 16), 2, &mut batches).unwrap();
    assert_eq!(batches.len(), 1);
}

#[test]
fn test_network_config_defaults() {
    let c = NetworkConfig::default();
    assert_eq!(c.max_bandwidth_per_player, 1024 * 1024);
    assert_eq!(c.max_batch_size, 50);
    assert_eq!(c.priority_queue_sizes.critical, Some(1000));
    let d = default_network_config();
    assert_eq!(d.max_bandwidth_per_player, 512 * 1024);
    assert_eq!(d.max_batch_size, 25);
    assert_eq!(d.priority_queue_sizes.low, Some(50));
    assert_eq!(d.compression_threshold, 128);
}

// --------------------------------------------------------------- compression

fn inflate(data: &[u8]) -> Vec<u8> {
    let mut out = Vec::new();
    std::io::Read::read_to_end(&mut flate2::read::DeflateDecoder::new(data), &mut out).unwrap();
    out
}

#[test]
fn test_compress_data_shrinks_repetitive_payload() {
    let data = vec![42u8; 4096];
    let packed = compress_data(&data, 64).unwrap();
    assert!(packed.len() < data.len());
    assert_eq!(inflate(&packed), data);
    let unpacked = decompress_data(&packed).unwrap();
    assert_eq!(unpacked, data);
}

#[test]
fn test_compress_data_keeps_small_or_incompressible_payload() {
    let small = vec![1u8, 2, 3];
    assert_eq!(compress_data(&small, 64).unwrap(), small);
    let mut noisy = Vec::new();
    let mut x: u32 = 12345;
    for _ in 0..200 {
        x = x.wrapping_mul(1103515245).wrapping_add(12345);
        noisy.push((x >> 16) as u8);
    }
    let out = compress_data(&noisy, 16).unwrap();
    assert!(out.len() <= noisy.len());
    assert_eq!(smaller_payload(&[1, 2], vec![1, 2, 3]), vec![1, 2]);
    assert_eq!(smaller_payload(&[1, 2, 3], vec![9]), vec![9]);
}

#[test]
fn test_decompress_rejects_garbage() {
    let garbage = vec![0xffu8; 16];
    match decompress_data(&garbage) {
        Err(NetworkError::SerializationError(msg)) => assert!(msg.starts_with("Decompression failed: ")),
        other => panic!("unexpected {:?}", other),
    }
}

#[test]
fn test_prepare_payload_respects_settings() {
    let data = vec![5u8; 1000];
    let mut c = NetworkConfig::default();
    let packed = prepare_payload(&c, data.clone()).unwrap();
    assert!(packed.len() < data.len());
    let mut e = flate2::write::DeflateEncoder::new(Vec::new(), flate2::Compression::fast());
    e.write_all(&data).unwrap();
    assert_eq!(packed, e.finish().unwrap());
    c.compression_enabled = false;
    assert_eq!(prepare_payload(&c, data.clone()).unwrap(), data);
    c.compression_enabled = true;
    c.compression_threshold = 1000;
    assert_eq!(prepare_payload(&c, data.clone()).unwrap(), data);
}

// ---------------------------------------------------------------- scheduler

#[test]
fn test_scheduler_due_objects() {
    let mut s = UpdateScheduler::new();
    let a = GorcObjectId(1);
    let b = GorcObjectId(2);
    s.add_object(a, 0);
    s.add_object(b, 0);
    let mut due: Vec<u128> = s.get_objects_needing_updates(10).iter().map(|g| g.0).collect();
    due.sort();
    assert_eq!(due, vec![1, 2]);
    s.mark_object_updated(a, 10);
    s.mark_object_updated(b, 10);
    assert!(s.get_objects_needing_updates(43).is_empty());
    let due: Vec<u128> = s.get_objects_needing_updates(44).iter().map(|g| g.0).collect();
    assert_eq!(due.len(), 2);
    s.mark_object_updated(a, 44);
    s.mark_object_dirty(a);
    let mut due: Vec<u128> = s.get_objects_needing_updates(45).iter().map(|g| g.0).collect();
    due.sort();
    assert_eq!(due, vec![1, 2]);
    let stats = s.get_stats();
    assert_eq!((stats.objects_tracked, stats.dirty_objects, stats.objects_updated), (2, 1, 3));
    s.remove_object(a);
    assert_eq!(s.get_objects_needing_updates(45).iter().map(|g| g.0).collect::<Vec<_>>(), vec![2]);
}

#[test]
fn test_sequencer_and_core_update() {
    let mut seq = UpdateSequencer::new();
    assert_eq!(seq.next(), 1);
    assert_eq!(seq.next(), 2);
    let u = core_layer_update(GorcObjectId(8), "Ship".to_string(), vec![1, 2], 2, 77);
    assert_eq!(u.channel, 0);
    assert_eq!(u.priority, ReplicationPriority::Normal);
    assert_eq!(u.compression, CompressionType::Uncompressed);
    assert_eq!((u.sequence, u.timestamp), (2, 77));
}

// ------------------------------------------------------------ virtualization

fn member(o: u128, channel: u8) -> ZoneMember {
    ZoneMember { object_id: GorcObjectId(o), channel }
}

#[test]
fn test_merge_then_split_restores() {
    let mut r = VirtualZoneRegistry::new();
    let members = vec![member(1, 0), member(2, 0), member(1, 1)];
    let id = r.merge_zones(0, &members, 100).unwrap();
    assert_eq!(id, VirtualZoneId(1));
    assert_eq!(r.zone_channel(id), Some(0));
    assert_eq!(r.zone_object_count(id), 2);
    let mut objs: Vec<u128> = r.get_virtual_zone_objects(id).iter().map(|g| g.0).collect();
    objs.sort();
    assert_eq!(objs, vec![1, 2]);
    assert_eq!(r.zones_of_object(GorcObjectId(1)), vec![id]);
    let stats = r.get_stats();
    assert_eq!((stats.total_virtual_zones_created, stats.active_virtual_zones, stats.total_objects_virtualized), (1, 1, 2));
    let mut freed: Vec<u128> = r.split_virtual_zone(id).unwrap().iter().map(|g| g.0).collect();
    freed.sort();
    assert_eq!(freed, vec![1, 2]);
    assert!(r.zones_of_object(GorcObjectId(1)).is_empty());
    assert_eq!(r.zone_channel(id), None);
    assert_eq!(r.get_stats().active_virtual_zones, 0);
    assert_eq!(r.get_stats().total_virtual_zones_destroyed, 1);
    assert_eq!(r.get_stats().total_objects_virtualized, 0);
    assert!(matches!(r.split_virtual_zone(id), Err(VirtualizationError::VirtualZoneNotFound(z)) if z == id));
}

#[test]
fn test_virtualization_errors() {
    let mut r = VirtualZoneRegistry::new();
    assert!(matches!(r.merge_zones(0, &Vec::new(), 1), Err(VirtualizationError::EmptyZoneList)));
    let missing = VirtualZoneId(77);
    assert!(matches!(r.split_virtual_zone(missing), Err(VirtualizationError::VirtualZoneNotFound(z)) if z == missing));
    assert!(r.get_virtual_zone_objects(missing).is_empty());
    assert_eq!(r.zone_object_count(missing), 0);
    // the failed merge used up an identifier
    let id = r.merge_zones(2, &vec![member(5, 2)], 1).unwrap();
    assert_eq!(id, VirtualZoneId(2));
}

// --------------------------------------------------------------------- misc

#[test]
fn test_plugin_error_messages() {
    assert_eq!(PluginError::InitializationFailed("db".to_string()).message(), "Plugin initialization failed: db");
    assert_eq!(PluginError::ExecutionError("x".to_string()).message(), "Plugin execution error: x");
    assert_eq!(PluginError::NotFound("p".to_string()).message(), "Plugin not found: p");
    assert_eq!(PluginError::Runtime("boom".to_string()).message(), "Plugin runtime error: boom");
}

#[test]
fn test_spatial_stats() {
    let n = NodeStats::from_counts(4, 4);
    assert_eq!(n, NodeStats { total_objects: 4, max_depth: 1, leaf_nodes: 4, internal_nodes: 0 });
    assert_eq!(NodeStats::from_counts(0, 0).max_depth, 0);
    let mut s = SpatialIndexStats::default();
    s.total_queries = 3;
    let t = s.with_structure(&n);
    assert_eq!((t.total_queries, t.current_depth, t.leaf_nodes, t.internal_nodes), (3, 1, 4, 0));
}

#[test]
fn test_shutdown_flags() {
    let s = ShutdownState::new();
    let shared = s.clone();
    assert!(!s.is_shutdown_initiated());
    shared.initiate_shutdown();
    assert!(s.is_shutdown_initiated());
    assert!(!s.is_shutdown_complete());
    shared.complete_shutdown();
    assert!(s.is_shutdown_complete());
}

#[test]
fn test_zone_data_names() {
    assert_eq!(PlayerDetailedData::zone_type_name(), "PlayerDetailedData");
    assert_eq!(PlayerMetadataData::zone_type_name(), "PlayerMetadataData");
    let d = PlayerDetailedData { equipment: vec!["sword".to_string()] };
    let m = PlayerMetadataData { name: "ana".to_string(), level: 3 };
    assert_eq!(d.equipment.len(), 1);
    assert_eq!(m.level, 3);
}

#[test]
fn object_registry_registers_and_looks_up_types() {
    let mut registry: ObjectTypeRegistry<u8> = ObjectTypeRegistry::new();
    registry.register_object_with_layers("Asteroid".to_string(), vec![0, 3]);
    registry.register_object_with_layers("Player".to_string(), vec![0, 1, 2, 3]);
    assert!(registry.is_registered("Asteroid"));
    assert!(!registry.is_registered("Projectile"));
    assert_eq!(registry.get_layers("Player"), Some(&vec![0, 1, 2, 3]));
    assert_eq!(registry.get_layers("Projectile"), None);
    assert_eq!(registry.count(), 2);
    let mut names = registry.list_objects();
    names.sort();
    assert_eq!(names, vec!["Asteroid".to_string(), "Player".to_string()]);
    assert_eq!(registry.get_stats(), RegistryCounters { registered_objects: 2, total_layers: 6 });
}

#[test]
fn object_registry_reregistration_replaces_layers_and_keeps_type_count() {
    let mut registry: ObjectTypeRegistry<u8> = ObjectTypeRegistry::new();
    registry.register_object_with_layers("Player".to_string(), vec![0]);
    registry.register_object_with_layers("Player".to_string(), vec![1, 2]);
    assert_eq!(registry.get_layers("Player"), Some(&vec![1, 2]));
    assert_eq!(registry.count(), 1);
    assert_eq!(registry.get_stats(), RegistryCounters { registered_objects: 1, total_layers: 3 });
}

#[test]
fn object_registry_unregister_and_clear() {
    let mut registry: ObjectTypeRegistry<u8> = ObjectTypeRegistry::new();
    registry.register_object_with_layers("Asteroid".to_string(), vec![0, 3]);
    registry.register_object_with_layers("Player".to_string(), vec![0, 1]);
    assert!(registry.unregister_object("Asteroid"));
    assert!(!registry.unregister_object("Asteroid"));
    assert!(!registry.is_registered("Asteroid"));
    assert_eq!(registry.get_layers("Player"), Some(&vec![0, 1]));
    assert_eq!(registry.list_objects(), vec!["Player".to_string()]);
    assert_eq!(registry.get_stats(), RegistryCounters { registered_objects: 1, total_layers: 4 });
    registry.clear();
    assert_eq!(registry.count(), 0);
    assert!(registry.list_objects().is_empty());
    assert_eq!(registry.get_stats(), RegistryCounters { registered_objects: 0, total_layers: 0 });
}

#[test]
fn object_registry_register_then_unregister_restores_types() {
    let mut registry: ObjectTypeRegistry<u8> = ObjectTypeRegistry::new();
    registry.register_object_with_layers("Player".to_string(), vec![0, 1]);
    let names_before = registry.list_objects();
    registry.register_object_with_layers("Projectile".to_string(), vec![0]);
    assert!(registry.unregister_object("Projectile"));
    assert_eq!(registry.list_objects(), names_before);
    assert_eq!(registry.get_layers("Player"), Some(&vec![0, 1]));
    assert_eq!(registry.get_stats(), RegistryCounters { registered_objects: 1, total_layers: 3 });
}

fn overlap_table(n: usize, pairs: &[(usize, usize)]) -> Vec<Vec<bool>> {
    let mut t = vec![vec![false; n]; n];
    for &(u, v) in pairs {
        t[u][v] = true;
    }
    t
}

#[test]
fn overlapping_clusters_of_no_zones_are_empty() {
    assert!(find_overlapping_clusters(&Vec::new()).is_empty());
    assert!(find_overlapping_clusters(&overlap_table(3, &[(0, 0), (1, 1)])).is_empty());
}

#[test]
fn overlapping_clusters_follow_chains_of_overlaps() {
    let t = overlap_table(4, &[(0, 1), (1, 0), (1, 2), (2, 1)]);
    assert_eq!(find_overlapping_clusters(&t), vec![vec![0, 1, 2]]);
}

#[test]
fn overlapping_clusters_grow_by_passes_in_index_order() {
    let t = overlap_table(3, &[(0, 2), (2, 1)]);
    assert_eq!(find_overlapping_clusters(&t), vec![vec![0, 2, 1]]);
}

#[test]
fn overlapping_clusters_drop_lone_zones() {
    let t = overlap_table(5, &[(1, 2), (2, 1), (3, 4), (4, 3)]);
    assert_eq!(find_overlapping_clusters(&t), vec![vec![1, 2], vec![3, 4]]);
}

#[test]
fn overlapping_clusters_take_each_zone_once() {
    let t = overlap_table(3, &[(0, 1), (2, 1)]);
    assert_eq!(find_overlapping_clusters(&t), vec![vec![0, 1]]);
}

#[test]
fn gorc_emission_checks_sender_manager_object_channel_in_order() {
    let subs = vec![PlayerId(7), PlayerId(9)];
    let object = Some((vec![0u8, 1], subs.clone()));
    assert_eq!(gorc_emit_targets(false, false, None, 0), Err(EmitFault::NoClientSender));
    assert_eq!(gorc_emit_targets(true, false, object.clone(), 0), Err(EmitFault::NoInstanceManager));
    assert_eq!(gorc_emit_targets(true, true, None, 0), Err(EmitFault::ObjectNotFound));
    assert_eq!(gorc_emit_targets(true, true, object.clone(), 3), Err(EmitFault::ChannelNotDefined(3)));
    assert_eq!(gorc_emit_targets(true, true, object, 1), Ok(subs));
}

#[test]
fn broadcast_outcome_counts_subscribers() {
    assert_eq!(broadcast_outcome(false, Some(vec![PlayerId(1)])), Err(EmitFault::NoInstanceManager));
    assert_eq!(broadcast_outcome(true, None), Err(EmitFault::ObjectNotFound));
    assert_eq!(broadcast_outcome(true, Some(Vec::new())), Ok(0));
    assert_eq!(broadcast_outcome(true, Some(vec![PlayerId(1), PlayerId(2)])), Ok(2));
}

#[test]
fn record_emission_counts_handled_events() {
    let mut c = EventCounters::new();
    assert!(!record_emission(&mut c, "gorc:Asteroid:0:moved", true));
    assert!(!record_emission(&mut c, "core:player_connected", true));
    assert_eq!(c, EventCounters { total_handlers: 0, events_emitted: 2, gorc_events_emitted: 1 });
    assert!(!record_emission(&mut c, "core:server_tick", false));
    assert!(!record_emission(&mut c, "core:raw_client_message", false));
    assert!(record_emission(&mut c, "core:unknown", false));
    assert_eq!(c, EventCounters { total_handlers: 0, events_emitted: 2, gorc_events_emitted: 1 });
}

#[test]
fn tick_step_generates_update_for_serialized_object() {
    let mut scheduler = UpdateScheduler::new();
    let mut seq = UpdateSequencer::new();
    scheduler.add_object(GorcObjectId(5), 0);
    let r = tick_step(
        &mut scheduler,
        &mut seq,
        GorcObjectId(5),
        Some(("Asteroid".to_string(), Some(vec![1, 2]), vec![PlayerId(3)])),
        100,
        9000,
    );
    let (players, update) = r.unwrap();
    assert_eq!(players, vec![PlayerId(3)]);
    assert_eq!(update.sequence, 1);
    assert_eq!(update.channel, 0);
    assert_eq!(update.data, vec![1, 2]);
    assert_eq!(update.timestamp, 9000);
    assert_eq!(update.object_type, "Asteroid");
    assert!(scheduler.get_objects_needing_updates(100).is_empty());
    let none = tick_step(&mut scheduler, &mut seq, GorcObjectId(5), Some(("Asteroid".to_string(), None, Vec::new())), 200, 9100);
    assert!(none.is_none());
    assert!(tick_step(&mut scheduler, &mut seq, GorcObjectId(6), None, 200, 9100).is_none());
    assert_eq!(seq.sequence_counter, 1);
    assert_eq!(scheduler.get_stats().objects_updated, 3);
}

#[test]
fn spatial_player_filters_keep_wanted_and_drop_unwanted() {
    let p = PlayerId(4);
    assert!(passes_player_filters(p, &None, &None));
    assert!(passes_player_filters(p, &Some(vec![PlayerId(4), PlayerId(5)]), &None));
    assert!(!passes_player_filters(p, &Some(vec![PlayerId(5)]), &None));
    assert!(!passes_player_filters(p, &None, &Some(vec![PlayerId(4)])));
    assert!(!passes_player_filters(p, &Some(vec![PlayerId(4)]), &Some(vec![PlayerId(4)])));
    assert!(passes_player_filters(p, &Some(vec![PlayerId(4)]), &Some(vec![PlayerId(1)])));
}
