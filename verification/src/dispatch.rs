//! Decisions of the event system and of the replication tick.
//!
//! The event system waits on handlers, object lookups and client sends; the
//! replication tick waits on the object instances and the network engine.
//! Between those waits they decide what to do: which error an emission meets
//! first, which players receive an event, what an emission adds to the
//! statistics, and which update a tick generates for an object. Those
//! decisions are the functions here; the caller performs the waits and hands
//! in what they returned.

use crate::events::{spec_has_prefix, starts_with};
use crate::queue::ReplicationUpdate;
use crate::priority::{CompressionType, ReplicationPriority};
use crate::scheduler::{core_layer_update, UpdateScheduler, UpdateSequencer};
use crate::types::{GorcObjectId, PlayerId};
use vstd::prelude::*;

verus! {

/// Why an event could not be emitted to the subscribers of an object.
#[derive(Debug, Clone, Copy, PartialEq, Eq, Structural)]
pub enum EmitFault {
    /// No client response sender is configured
    NoClientSender,
    /// No GORC instance manager is available
    NoInstanceManager,
    /// The object instance is not registered
    ObjectNotFound,
    /// The object defines no replication layer on the channel
    ChannelNotDefined(u8),
}

/// The integer statistics of the event system.
#[derive(Debug, Clone, Copy, PartialEq, Eq, Structural)]
pub struct EventCounters {
    /// Total number of registered event handlers
    pub total_handlers: usize,
    /// Total number of events emitted to registered handlers
    pub events_emitted: u64,
    /// Total number of GORC events emitted to registered handlers
    pub gorc_events_emitted: u64,
}

impl EventCounters {
    /// All counters at zero.
    pub fn new() -> (c: Self)
        ensures
            c == (EventCounters { total_handlers: 0, events_emitted: 0, gorc_events_emitted: 0 }),
    {
        EventCounters { total_handlers: 0, events_emitted: 0, gorc_events_emitted: 0 }
    }
}

/// Whether a layer list names channel `c`.
fn lists_channel(channels: &Vec<u8>, c: u8) -> (b: bool)
    ensures
        b == channels@.contains(c),
{
    let mut i: usize = 0;
    while i < channels.len()
        invariant
            i <= channels@.len(),
            forall|j: int| 0 <= j < i ==> channels@[j] != c,
        decreases channels@.len() - i,
    {
        if channels[i] == c {
            return true;
        }
        i = i + 1;
    }
    false
}

/// The players that receive an event emitted to the subscribers of an
/// object on a channel. `sender` says whether a client response sender is
/// configured and `manager` whether an instance manager is available;
/// `object` is what the lookup of the object returned: the channels of its
/// replication layers and its subscribers on `channel`. The checks come in
/// this order: sender, manager, object, channel.
pub fn gorc_emit_targets(sender: bool, manager: bool, object: Option<(Vec<u8>, Vec<PlayerId>)>, channel: u8) -> (r:
    Result<Vec<PlayerId>, EmitFault>)
    ensures
        !sender ==> r == Err::<Vec<PlayerId>, EmitFault>(EmitFault::NoClientSender),
        sender && !manager ==> r == Err::<Vec<PlayerId>, EmitFault>(EmitFault::NoInstanceManager),
        sender && manager && object is None ==> r == Err::<Vec<PlayerId>, EmitFault>(EmitFault::ObjectNotFound),
        sender && manager ==> (object matches Some((layers, subscribers)) ==> if layers@.contains(channel) {
            r matches Ok(players) && players@ == subscribers@
        } else {
            r == Err::<Vec<PlayerId>, EmitFault>(EmitFault::ChannelNotDefined(channel))
        }),
{
    if !sender {
        return Err(EmitFault::NoClientSender);
    }
    if !manager {
        return Err(EmitFault::NoInstanceManager);
    }
    match object {
        None => Err(EmitFault::ObjectNotFound),
        Some((layers, subscribers)) => {
            if lists_channel(&layers, channel) {
                Ok(subscribers)
            } else {
                Err(EmitFault::ChannelNotDefined(channel))
            }
        },
    }
}

/// The outcome of broadcasting an event to the subscribers of an object
/// instance: the number of subscribers reached. `manager` says whether an
/// instance manager is available; `subscribers` is what the lookup of the
/// object returned (its subscribers on the channel, or `None` for an unknown
/// object).
pub fn broadcast_outcome(manager: bool, subscribers: Option<Vec<PlayerId>>) -> (r: Result<usize, EmitFault>)
    ensures
        !manager ==> r == Err::<usize, EmitFault>(EmitFault::NoInstanceManager),
        manager && subscribers is None ==> r == Err::<usize, EmitFault>(EmitFault::ObjectNotFound),
        manager ==> (subscribers matches Some(s) ==> r == Ok::<usize, EmitFault>(s@.len() as usize)),
{
    if !manager {
        return Err(EmitFault::NoInstanceManager);
    }
    match subscribers {
        None => Err(EmitFault::ObjectNotFound),
        Some(s) => Ok(s.len()),
    }
}

/// Whether two strings are the same text.
fn same_text(a: &str, b: &str) -> (r: bool)
    ensures
        r == (a@ == b@),
{
    let x = a.to_owned();
    let y = b.to_owned();
    x == y
}

/// Records an emission of the event with key `key` in the counters.
/// Where handlers are registered for the key, one emitted event is counted,
/// and one GORC event too if the key starts with `gorc`. Where none are, the
/// counters stay, and the result says whether similar registered paths are
/// to be looked up and reported: for every key but `core:server_tick` and
/// `core:raw_client_message`.
pub fn record_emission(stats: &mut EventCounters, key: &str, handlers_found: bool) -> (report_similar: bool)
    requires
        handlers_found ==> old(stats).events_emitted < u64::MAX,
        handlers_found ==> old(stats).gorc_events_emitted < u64::MAX,
    ensures
        handlers_found ==> {
            &&& !report_similar
            &&& *final(stats) == (EventCounters {
                events_emitted: (old(stats).events_emitted + 1) as u64,
                gorc_events_emitted: if spec_has_prefix(key@, "gorc"@) {
                    (old(stats).gorc_events_emitted + 1) as u64
                } else {
                    old(stats).gorc_events_emitted
                },
                ..*old(stats)
            })
        },
        !handlers_found ==> {
            &&& *final(stats) == *old(stats)
            &&& report_similar == (key@ != "core:server_tick"@ && key@ != "core:raw_client_message"@)
        },
{
    if handlers_found {
        stats.events_emitted = stats.events_emitted + 1;
        if starts_with(key, "gorc") {
            stats.gorc_events_emitted = stats.gorc_events_emitted + 1;
        }
        false
    } else {
        !same_text(key, "core:server_tick") && !same_text(key, "core:raw_client_message")
    }
}

/// The update that the replication tick generates for an object whose type
/// name and core-layer data are given.
pub open spec fn spec_tick_update(object_id: GorcObjectId, object_type: String, data: Vec<u8>, sequence: u32, timestamp_ms: u64) -> ReplicationUpdate {
    ReplicationUpdate {
        object_id,
        object_type,
        channel: 0,
        data,
        priority: ReplicationPriority::Normal,
        sequence,
        timestamp: timestamp_ms,
        compression: CompressionType::Uncompressed,
    }
}

/// One object's step of the replication tick. `object` is what the lookup
/// of the object returned: its type name, its core-layer data (`None` where
/// serialization failed) and its subscribers on channel 0. The object is
/// marked updated at `now_ms` in every case. Where it was found and
/// serialized, the next sequence number is drawn and the result is the
/// update for it, addressed to the channel-0 subscribers; otherwise there is
/// no update and the sequencer stays.
pub fn tick_step(
    scheduler: &mut UpdateScheduler,
    seq: &mut UpdateSequencer,
    object_id: GorcObjectId,
    object: Option<(String, Option<Vec<u8>>, Vec<PlayerId>)>,
    now_ms: u64,
    ts_ms: u64,
) -> (r: Option<(Vec<PlayerId>, ReplicationUpdate)>)
    requires
        old(scheduler).updated_count() < u64::MAX,
        object matches Some((_, Some(_), _)) ==> old(seq).sequence_counter < u32::MAX,
    ensures
        final(scheduler).update_times() == old(scheduler).update_times().insert(object_id.0, now_ms),
        final(scheduler).dirty() == old(scheduler).dirty().remove(object_id.0),
        final(scheduler).updated_count() == old(scheduler).updated_count() + 1,
        match object {
            Some((object_type, Some(data), subscribers)) => {
                &&& final(seq).sequence_counter == old(seq).sequence_counter + 1
                &&& r matches Some((players, update)) && players@ == subscribers@ && update == spec_tick_update(
                    object_id,
                    object_type,
                    data,
                    final(seq).sequence_counter,
                    ts_ms,
                )
                &&& r matches Some((_, update)) && update.priority == ReplicationPriority::Normal && update.channel == 0
                    && update.compression == CompressionType::Uncompressed && update.object_id == object_id
            },
            _ => r is None && *final(seq) == *old(seq),
        },
{
    let result = match object {
        Some((object_type, Some(data), subscribers)) => {
            let sequence = seq.next();
            let update = core_layer_update(object_id, object_type, data, sequence, ts_ms);
            Some((subscribers, update))
        },
        _ => None,
    };
    scheduler.mark_object_updated(object_id, now_ms);
    result
}

/// The update a tick generates for an object is a core-layer update: it
/// goes on channel 0 at `Normal` priority, uncompressed, for the object it
/// was made for, with the sequence number and time it was given, carrying
/// the object's data and type unchanged.
pub proof fn law_tick_update_is_core_layer(object_id: GorcObjectId, object_type: String, data: Vec<u8>, sequence: u32, timestamp_ms: u64)
    ensures
        ({
            let u = spec_tick_update(object_id, object_type, data, sequence, timestamp_ms);
            &&& u.priority == ReplicationPriority::Normal
            &&& u.channel == 0
            &&& u.compression == CompressionType::Uncompressed
            &&& u.object_id == object_id
            &&& u.object_type == object_type
            &&& u.data == data
            &&& u.sequence == sequence
            &&& u.timestamp == timestamp_ms
        }),
{
}

} // verus!
