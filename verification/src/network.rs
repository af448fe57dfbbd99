//! Per-player batching of replication updates.
//!
//! Every player has a priority queue of pending updates, a batch being
//! assembled, a bandwidth budget per second and a sequence counter. Processing
//! a player moves queued updates, most urgent first, into the batch while the
//! bandwidth budget allows, and hands out finished batches for transmission.
//! Times are milliseconds of a monotonic clock read by the caller.

use crate::priority::{most_urgent, spec_most_urgent, ReplicationPriority};
use crate::queue::{PriorityUpdateQueue, QueueLimits, ReplicationUpdate};
use crate::types::PlayerId;
use crate::events::{concat_str, spec_has_prefix};
use crate::utils::current_timestamp;
use vstd::prelude::*;

verus! {

/// Network error types.
#[derive(Debug)]
pub enum NetworkError {
    SerializationError(String),
    CompressionError(String),
    TransmissionError(String),
    BandwidthExceeded { player_id: PlayerId },
    QueueCapacityExceeded { priority: ReplicationPriority },
    InvalidConfiguration(String),
}

/// Batch of replication updates for efficient transmission.
#[derive(Debug)]
pub struct ReplicationBatch {
    /// Batch identifier
    pub batch_id: u32,
    /// Updates in this batch
    pub updates: Vec<ReplicationUpdate>,
    /// Target player for this batch
    pub target_player: PlayerId,
    /// Batch priority (highest priority of contained updates)
    pub priority: ReplicationPriority,
    /// Total payload size of the contained updates
    pub compressed_size: usize,
    /// Creation timestamp
    pub timestamp: u64,
}

/// Per-player network statistics.
#[derive(Debug, Clone, Copy, PartialEq, Eq, Structural)]
pub struct PlayerStats {
    pub updates_sent: u64,
    pub bytes_sent: u64,
    pub updates_dropped: u64,
}

/// Bytes that the processing of a player reserves per queued update.
pub const ESTIMATED_UPDATE_SIZE: u32 = 256;

/// Milliseconds after which the per-second bandwidth budget starts afresh.
pub const BANDWIDTH_WINDOW_MS: u64 = 1000;

/// Milliseconds from `since` to `now`, or 0 where `now` is earlier.
pub open spec fn spec_elapsed(since: u64, now: u64) -> int {
    if now >= since {
        now - since
    } else {
        0
    }
}

/// The most urgent priority of the updates (Normal for none).
pub open spec fn spec_batch_priority(updates: Seq<ReplicationUpdate>) -> ReplicationPriority
    decreases updates.len(),
{
    if updates.len() == 0 {
        ReplicationPriority::Normal
    } else if updates.len() == 1 {
        updates[0].priority
    } else {
        spec_most_urgent(spec_batch_priority(updates.drop_last()), updates.last().priority)
    }
}

/// Total number of payload bytes of the updates.
pub open spec fn spec_payload_size(updates: Seq<ReplicationUpdate>) -> int
    decreases updates.len(),
{
    if updates.len() == 0 {
        0
    } else {
        spec_payload_size(updates.drop_last()) + updates.last().data@.len()
    }
}

/// A batch carries the most urgent priority among its updates: no update in
/// it is more urgent than the batch, and one update has the batch's priority.
pub proof fn law_batch_priority_is_most_urgent(updates: Seq<ReplicationUpdate>)
    requires
        updates.len() > 0,
    ensures
        forall|i: int|
            0 <= i < updates.len() ==> spec_batch_priority(updates).spec_rank() <= #[trigger] updates[i].priority.spec_rank(),
        exists|i: int| 0 <= i < updates.len() && #[trigger] updates[i].priority == spec_batch_priority(updates),
    decreases updates.len(),
{
    if updates.len() == 1 {
        assert(updates[0].priority == spec_batch_priority(updates));
    } else {
        let init = updates.drop_last();
        law_batch_priority_is_most_urgent(init);
        let j = choose|j: int| 0 <= j < init.len() && #[trigger] init[j].priority == spec_batch_priority(init);
        assert(updates[j] == init[j]);
        assert forall|i: int| 0 <= i < updates.len() implies spec_batch_priority(updates).spec_rank()
            <= #[trigger] updates[i].priority.spec_rank() by {
            if i < init.len() {
                assert(updates[i] == init[i]);
            }
        }
        if spec_batch_priority(updates) == updates.last().priority {
            assert(updates[updates.len() - 1].priority == spec_batch_priority(updates));
        } else {
            assert(updates[j].priority == spec_batch_priority(updates));
        }
    }
}

/// The payload size that a batch records: the total payload of its updates,
/// saturated at `usize::MAX`.
pub open spec fn spec_recorded_size(updates: Seq<ReplicationUpdate>) -> int {
    vstd::math::min(spec_payload_size(updates), usize::MAX as int)
}

/// Builds the batch of `updates` for `player_id` made at Unix time `now`.
/// Fails with `InvalidConfiguration` on an empty list.
pub fn assemble_batch(player_id: PlayerId, updates: Vec<ReplicationUpdate>, now: u64) -> (r: Result<ReplicationBatch, NetworkError>)
    ensures
        updates@.len() == 0 <==> r is Err,
        r matches Err(e) ==> e is InvalidConfiguration,
        r matches Ok(b) ==> {
            &&& b.updates@ == updates@
            &&& b.target_player == player_id
            &&& b.priority == spec_batch_priority(updates@)
            &&& b.compressed_size == spec_recorded_size(updates@)
            &&& b.batch_id == now as u32
            &&& b.timestamp == now
        },
{
    if updates.len() == 0 {
        return Err(NetworkError::InvalidConfiguration("Cannot create empty batch".to_string()));
    }
    let mut priority = updates[0].priority;
    let mut size: usize = updates[0].data.len();
    let mut i: usize = 1;
    proof {
        assert(updates@.take(1).drop_last() =~= Seq::<ReplicationUpdate>::empty());
        assert(updates@.take(1).last() == updates@[0]);
        assert(spec_payload_size(Seq::<ReplicationUpdate>::empty()) == 0);
    }
    while i < updates.len()
        invariant
            1 <= i <= updates@.len(),
            priority == spec_batch_priority(updates@.take(i as int)),
            size == spec_recorded_size(updates@.take(i as int)),
        decreases updates@.len() - i,
    {
        proof {
            assert(updates@.take(i + 1).drop_last() =~= updates@.take(i as int));
        }
        priority = most_urgent(priority, updates[i].priority);
        let len = updates[i].data.len();
        size = if size > usize::MAX - len {
            usize::MAX
        } else {
            size + len
        };
        i = i + 1;
    }
    proof {
        assert(updates@.take(updates@.len() as int) =~= updates@);
    }
    Ok(ReplicationBatch {
        batch_id: #[verifier::truncate] (now as u32),
        updates,
        target_player: player_id,
        priority,
        compressed_size: size,
        timestamp: now,
    })
}

/// Builds the batch of `updates` for `player_id`, stamped with the current
/// Unix time. Fails with `InvalidConfiguration` on an empty list.
pub fn create_batch(player_id: PlayerId, updates: Vec<ReplicationUpdate>) -> (r: Result<ReplicationBatch, NetworkError>)
    ensures
        updates@.len() == 0 <==> r is Err,
        r matches Err(e) ==> e is InvalidConfiguration,
        r matches Ok(b) ==> {
            &&& b.updates@ == updates@
            &&& b.target_player == player_id
            &&& b.priority == spec_batch_priority(updates@)
            &&& b.compressed_size == spec_recorded_size(updates@)
            &&& b.batch_id == b.timestamp as u32
        },
{
    let now = current_timestamp();
    assemble_batch(player_id, updates, now)
}

/// Per-player network state.
#[derive(Debug)]
pub struct PlayerNetworkState {
    /// Player identifier
    pub player_id: PlayerId,
    /// Update queue for this player
    pub update_queue: PriorityUpdateQueue,
    /// Bandwidth used in the current one-second window
    pub bytes_sent_this_second: u32,
    /// Clock reading at which the current bandwidth window began
    pub last_bandwidth_reset_ms: u64,
    /// Current batch being assembled
    pub current_batch: Option<Vec<ReplicationUpdate>>,
    /// Clock reading at which the current batch was started
    pub batch_start_ms: Option<u64>,
    /// Sequence number for this player's updates
    pub sequence_counter: u32,
    /// Network statistics for this player
    pub stats: PlayerStats,
}

/// Whether a batch is due: it holds `max_batch_size` updates or more, or it
/// was started `max_batch_age_ms` or longer ago.
pub open spec fn spec_batch_due(
    batch: Option<Vec<ReplicationUpdate>>,
    start: Option<u64>,
    max_batch_size: usize,
    max_batch_age_ms: u64,
    now_ms: u64,
) -> bool {
    match batch {
        Some(b) => b@.len() >= max_batch_size || (start matches Some(s) && spec_elapsed(s, now_ms) >= max_batch_age_ms),
        None => false,
    }
}

/// Whether a bandwidth window that began at `last` is over at `now`.
pub open spec fn spec_window_over(last: u64, now: u64) -> bool {
    spec_elapsed(last, now) >= BANDWIDTH_WINDOW_MS
}

impl PlayerNetworkState {
    /// Creates the state of a newly added player at clock reading `now_ms`.
    pub fn new(player_id: PlayerId, max_queue_sizes: QueueLimits, now_ms: u64) -> (s: Self)
        ensures
            s.player_id == player_id,
            s.update_queue.wf(),
            s.update_queue.limits() == max_queue_sizes,
            s.update_queue.spec_len() == 0,
            s.bytes_sent_this_second == 0,
            s.last_bandwidth_reset_ms == now_ms,
            s.current_batch is None,
            s.batch_start_ms is None,
            s.sequence_counter == 0,
            s.stats == (PlayerStats { updates_sent: 0, bytes_sent: 0, updates_dropped: 0 }),
    {
        PlayerNetworkState {
            player_id,
            update_queue: PriorityUpdateQueue::new(max_queue_sizes),
            bytes_sent_this_second: 0,
            last_bandwidth_reset_ms: now_ms,
            current_batch: None,
            batch_start_ms: None,
            sequence_counter: 0,
            stats: PlayerStats { updates_sent: 0, bytes_sent: 0, updates_dropped: 0 },
        }
    }

    /// Checks whether `bytes_needed` more bytes fit in the bandwidth budget of
    /// the current one-second window; a window that is over starts afresh at
    /// `now_ms` with nothing used.
    pub fn has_bandwidth(&mut self, bytes_needed: u32, max_bandwidth: u32, now_ms: u64) -> (b: bool)
        ensures
            spec_window_over(old(self).last_bandwidth_reset_ms, now_ms) ==> {
                &&& final(self).bytes_sent_this_second == 0
                &&& final(self).last_bandwidth_reset_ms == now_ms
            },
            !spec_window_over(old(self).last_bandwidth_reset_ms, now_ms) ==> {
                &&& final(self).bytes_sent_this_second == old(self).bytes_sent_this_second
                &&& final(self).last_bandwidth_reset_ms == old(self).last_bandwidth_reset_ms
            },
            b == (final(self).bytes_sent_this_second + bytes_needed <= max_bandwidth),
            final(self).player_id == old(self).player_id,
            final(self).update_queue == old(self).update_queue,
            final(self).current_batch == old(self).current_batch,
            final(self).batch_start_ms == old(self).batch_start_ms,
            final(self).sequence_counter == old(self).sequence_counter,
            final(self).stats == old(self).stats,
    {
        if now_ms >= self.last_bandwidth_reset_ms && now_ms - self.last_bandwidth_reset_ms >= BANDWIDTH_WINDOW_MS {
            self.bytes_sent_this_second = 0;
            self.last_bandwidth_reset_ms = now_ms;
        }
        (self.bytes_sent_this_second as u64) + (bytes_needed as u64) <= (max_bandwidth as u64)
    }

    /// Records bandwidth usage.
    pub fn consume_bandwidth(&mut self, bytes: u32)
        requires
            old(self).bytes_sent_this_second + bytes <= u32::MAX,
            old(self).stats.bytes_sent + bytes <= u64::MAX,
        ensures
            final(self).bytes_sent_this_second == old(self).bytes_sent_this_second + bytes,
            final(self).stats == (PlayerStats { bytes_sent: (old(self).stats.bytes_sent + bytes) as u64, ..old(self).stats }),
            final(self).player_id == old(self).player_id,
            final(self).update_queue == old(self).update_queue,
            final(self).last_bandwidth_reset_ms == old(self).last_bandwidth_reset_ms,
            final(self).current_batch == old(self).current_batch,
            final(self).batch_start_ms == old(self).batch_start_ms,
            final(self).sequence_counter == old(self).sequence_counter,
    {
        self.bytes_sent_this_second = self.bytes_sent_this_second + bytes;
        self.stats.bytes_sent = self.stats.bytes_sent + bytes as u64;
    }

    /// Advances the sequence counter (wrapping from `u32::MAX` to 0) and
    /// returns the new value.
    pub fn next_sequence(&mut self) -> (n: u32)
        ensures
            n == final(self).sequence_counter,
            n == if old(self).sequence_counter == u32::MAX {
                0
            } else {
                (old(self).sequence_counter + 1) as u32
            },
            final(self).player_id == old(self).player_id,
            final(self).update_queue == old(self).update_queue,
            final(self).bytes_sent_this_second == old(self).bytes_sent_this_second,
            final(self).last_bandwidth_reset_ms == old(self).last_bandwidth_reset_ms,
            final(self).current_batch == old(self).current_batch,
            final(self).batch_start_ms == old(self).batch_start_ms,
            final(self).stats == old(self).stats,
    {
        self.sequence_counter = self.sequence_counter.wrapping_add(1);
        self.sequence_counter
    }

    /// Adds an update to this player's queue. The queue always accepts it,
    /// dropping the oldest update of a full lane.
    pub fn queue_update(&mut self, update: ReplicationUpdate) -> (r: Result<(), NetworkError>)
        requires
            old(self).update_queue.wf(),
            old(self).update_queue.spec_len() < usize::MAX,
        ensures
            r is Ok,
            final(self).update_queue.wf(),
            final(self).update_queue.limits() == old(self).update_queue.limits(),
            final(self).update_queue.lane(update.priority) == crate::queue::spec_trim(
                old(self).update_queue.lane(update.priority),
                old(self).update_queue.capacity_of(update.priority),
            ).push(update),
            forall|q: ReplicationPriority|
                q != update.priority ==> #[trigger] final(self).update_queue.lane(q) == old(self).update_queue.lane(q),
            final(self).player_id == old(self).player_id,
            final(self).bytes_sent_this_second == old(self).bytes_sent_this_second,
            final(self).last_bandwidth_reset_ms == old(self).last_bandwidth_reset_ms,
            final(self).current_batch == old(self).current_batch,
            final(self).batch_start_ms == old(self).batch_start_ms,
            final(self).sequence_counter == old(self).sequence_counter,
            final(self).stats == old(self).stats,
    {
        if !self.update_queue.push(update) {
            self.stats.updates_dropped = self.stats.updates_dropped + 1;
            Err(NetworkError::QueueCapacityExceeded { priority: ReplicationPriority::Normal })
        } else {
            Ok(())
        }
    }

    /// Starts a new, empty batch at clock reading `now_ms`.
    pub fn start_batch(&mut self, now_ms: u64)
        ensures
            final(self).current_batch matches Some(b) && b@.len() == 0,
            final(self).batch_start_ms == Some(now_ms),
            final(self).player_id == old(self).player_id,
            final(self).update_queue == old(self).update_queue,
            final(self).bytes_sent_this_second == old(self).bytes_sent_this_second,
            final(self).last_bandwidth_reset_ms == old(self).last_bandwidth_reset_ms,
            final(self).sequence_counter == old(self).sequence_counter,
            final(self).stats == old(self).stats,
    {
        self.current_batch = Some(Vec::new());
        self.batch_start_ms = Some(now_ms);
    }

    /// Appends an update to the current batch; returns false, changing
    /// nothing, where no batch is open.
    pub fn add_to_batch(&mut self, update: ReplicationUpdate) -> (added: bool)
        ensures
            added == (old(self).current_batch is Some),
            old(self).current_batch matches Some(b) ==> final(self).current_batch matches Some(nb) && nb@ == b@.push(update),
            old(self).current_batch is None ==> final(self).current_batch is None,
            final(self).batch_start_ms == old(self).batch_start_ms,
            final(self).player_id == old(self).player_id,
            final(self).update_queue == old(self).update_queue,
            final(self).bytes_sent_this_second == old(self).bytes_sent_this_second,
            final(self).last_bandwidth_reset_ms == old(self).last_bandwidth_reset_ms,
            final(self).sequence_counter == old(self).sequence_counter,
            final(self).stats == old(self).stats,
    {
        match self.current_batch.take() {
            Some(mut batch) => {
                batch.push(update);
                self.current_batch = Some(batch);
                true
            },
            None => false,
        }
    }

    /// Closes the current batch and returns it (None where no batch is open).
    pub fn finish_batch(&mut self) -> (r: Option<Vec<ReplicationUpdate>>)
        ensures
            r == old(self).current_batch,
            final(self).current_batch is None,
            final(self).batch_start_ms is None,
            final(self).player_id == old(self).player_id,
            final(self).update_queue == old(self).update_queue,
            final(self).bytes_sent_this_second == old(self).bytes_sent_this_second,
            final(self).last_bandwidth_reset_ms == old(self).last_bandwidth_reset_ms,
            final(self).sequence_counter == old(self).sequence_counter,
            final(self).stats == old(self).stats,
    {
        self.batch_start_ms = None;
        self.current_batch.take()
    }

    /// Checks whether the current batch should be sent: it holds
    /// `max_batch_size` updates or more, or is `max_batch_age_ms` old or older.
    pub fn should_send_batch(&self, max_batch_size: usize, max_batch_age_ms: u64, now_ms: u64) -> (b: bool)
        ensures
            b == spec_batch_due(self.current_batch, self.batch_start_ms, max_batch_size, max_batch_age_ms, now_ms),
    {
        match &self.current_batch {
            Some(batch) => {
                if batch.len() >= max_batch_size {
                    return true;
                }
                match self.batch_start_ms {
                    Some(start) => {
                        let elapsed: u64 = if now_ms >= start {
                            now_ms - start
                        } else {
                            0
                        };
                        elapsed >= max_batch_age_ms
                    },
                    None => false,
                }
            },
            None => false,
        }
    }
}


/// Configuration of the replication network. Per-channel target update
/// frequencies are kept beside it by its owner.
#[derive(Debug, Clone, Copy, PartialEq, Eq, Structural)]
pub struct NetworkConfig {
    /// Maximum bandwidth per player (bytes per second)
    pub max_bandwidth_per_player: u32,
    /// Maximum batch size in updates
    pub max_batch_size: usize,
    /// Maximum batch age before forced transmission
    pub max_batch_age_ms: u64,
    /// Enable compression
    pub compression_enabled: bool,
    /// Minimum compression threshold (don't compress smaller payloads)
    pub compression_threshold: usize,
    /// Priority queue sizes
    pub priority_queue_sizes: QueueLimits,
}

impl Default for NetworkConfig {
    /// 1 MiB/s per player, batches of 50 updates or 16 ms, compression above
    /// 128 bytes, lanes of 1000, 500, 250 and 100 updates.
    fn default() -> (c: Self)
        ensures
            c == (NetworkConfig {
                max_bandwidth_per_player: 1048576,
                max_batch_size: 50,
                max_batch_age_ms: 16,
                compression_enabled: true,
                compression_threshold: 128,
                priority_queue_sizes: QueueLimits {
                    critical: Some(1000),
                    high: Some(500),
                    normal: Some(250),
                    low: Some(100),
                },
            }),
    {
        NetworkConfig {
            max_bandwidth_per_player: 1024 * 1024,
            max_batch_size: 50,
            max_batch_age_ms: 16,
            compression_enabled: true,
            compression_threshold: 128,
            priority_queue_sizes: QueueLimits {
                critical: Some(1000),
                high: Some(500),
                normal: Some(250),
                low: Some(100),
            },
        }
    }
}

/// Network configuration for balanced performance: 512 KiB/s per player,
/// batches of 25 updates or 16 ms, compression above 128 bytes, lanes of 500,
/// 250, 100 and 50 updates.
pub fn default_network_config() -> (c: NetworkConfig)
    ensures
        c == (NetworkConfig {
            max_bandwidth_per_player: 524288,
            max_batch_size: 25,
            max_batch_age_ms: 16,
            compression_enabled: true,
            compression_threshold: 128,
            priority_queue_sizes: QueueLimits { critical: Some(500), high: Some(250), normal: Some(100), low: Some(50) },
        }),
{
    NetworkConfig {
        max_bandwidth_per_player: 512 * 1024,
        max_batch_size: 25,
        max_batch_age_ms: 16,
        compression_enabled: true,
        compression_threshold: 128,
        priority_queue_sizes: QueueLimits { critical: Some(500), high: Some(250), normal: Some(100), low: Some(50) },
    }
}

/// The updates of an optional batch (none for no batch).
pub open spec fn spec_batch_items(batch: Option<Vec<ReplicationUpdate>>) -> Seq<ReplicationUpdate> {
    match batch {
        Some(b) => b@,
        None => Seq::empty(),
    }
}

/// `b` is the batch that `create_batch` makes of `updates` for `player`.
pub open spec fn spec_is_batch_of(b: ReplicationBatch, player: PlayerId, updates: Seq<ReplicationUpdate>) -> bool {
    &&& b.updates@ == updates
    &&& b.target_player == player
    &&& b.priority == spec_batch_priority(updates)
    &&& b.compressed_size == spec_recorded_size(updates)
    &&& b.batch_id == b.timestamp as u32
}

/// Bandwidth used in the window at `now`: nothing once the window is over.
pub open spec fn spec_window_bytes(bytes: u32, last: u64, now: u64) -> u32 {
    if spec_window_over(last, now) {
        0
    } else {
        bytes
    }
}

/// Start of the bandwidth window at `now`.
pub open spec fn spec_window_start(last: u64, now: u64) -> u64 {
    if spec_window_over(last, now) {
        now
    } else {
        last
    }
}

proof fn lemma_window_restart_idempotent(bytes: u32, last: u64, now: u64)
    ensures
        spec_window_bytes(spec_window_bytes(bytes, last, now), spec_window_start(last, now), now) == spec_window_bytes(
            bytes,
            last,
            now,
        ),
        spec_window_start(spec_window_start(last, now), now) == spec_window_start(last, now),
{
}

proof fn lemma_order_empty_lanes(q: PriorityUpdateQueue)
    requires
        q.order().len() == 0,
    ensures
        forall|p: ReplicationPriority| #[trigger] q.lane(p) == Seq::<ReplicationUpdate>::empty(),
{
    assert forall|p: ReplicationPriority| #[trigger] q.lane(p) == Seq::<ReplicationUpdate>::empty() by {
        assert(q.lane(p).len() == 0);
        assert(q.lane(p) =~= Seq::<ReplicationUpdate>::empty());
    }
}

/// One processing step of a player's updates at clock reading `now_ms`:
/// 1. a due batch (see `should_send_batch`) is closed and, where it holds
///    updates, handed out as a batch in `batches_to_send`;
/// 2. where no batch is open and updates wait, a batch is started;
/// 3. where updates wait and the bandwidth window has room for one estimated
///    update, every waiting update moves into the batch, most urgent first;
///    otherwise the queue is left as it is.
/// Consulting the bandwidth budget restarts a window that is over.
pub fn process_player_updates(
    state: &mut PlayerNetworkState,
    config: &NetworkConfig,
    now_ms: u64,
    batches_to_send: &mut Vec<ReplicationBatch>,
) -> (r: Result<(), NetworkError>)
    requires
        old(state).update_queue.wf(),
    ensures
        r is Ok,
        ({
            let s0 = *old(state);
            let s1 = *final(state);
            let due = spec_batch_due(s0.current_batch, s0.batch_start_ms, config.max_batch_size, config.max_batch_age_ms, now_ms);
            let sent = due && spec_batch_items(s0.current_batch).len() > 0;
            let q0 = s0.update_queue.order();
            let base = if due { Seq::<ReplicationUpdate>::empty() } else { spec_batch_items(s0.current_batch) };
            let bytes = spec_window_bytes(s0.bytes_sent_this_second, s0.last_bandwidth_reset_ms, now_ms);
            let granted = q0.len() > 0 && bytes + ESTIMATED_UPDATE_SIZE <= config.max_bandwidth_per_player;
            &&& s1.player_id == s0.player_id
            &&& s1.sequence_counter == s0.sequence_counter
            &&& s1.stats == s0.stats
            &&& s1.update_queue.wf()
            &&& s1.update_queue.limits() == s0.update_queue.limits()
            &&& (if granted {
                forall|p: ReplicationPriority| #[trigger] s1.update_queue.lane(p) == Seq::<ReplicationUpdate>::empty()
            } else {
                forall|p: ReplicationPriority| #[trigger] s1.update_queue.lane(p) == s0.update_queue.lane(p)
            })
            &&& s1.update_queue.order() == if granted { Seq::<ReplicationUpdate>::empty() } else { q0 }
            &&& (s1.current_batch is None <==> (q0.len() == 0 && (due || s0.current_batch is None)))
            &&& spec_batch_items(s1.current_batch) == if granted { base + q0 } else { base }
            &&& s1.batch_start_ms == if q0.len() > 0 && (due || s0.current_batch is None) {
                Some(now_ms)
            } else if due {
                None
            } else {
                s0.batch_start_ms
            }
            &&& s1.bytes_sent_this_second == if q0.len() > 0 { bytes } else { s0.bytes_sent_this_second }
            &&& s1.last_bandwidth_reset_ms == if q0.len() > 0 {
                spec_window_start(s0.last_bandwidth_reset_ms, now_ms)
            } else {
                s0.last_bandwidth_reset_ms
            }
            &&& final(batches_to_send)@.len() == old(batches_to_send)@.len() + if sent { 1int } else { 0int }
            &&& final(batches_to_send)@.take(old(batches_to_send)@.len() as int) == old(batches_to_send)@
            &&& sent ==> spec_is_batch_of(final(batches_to_send)@.last(), s0.player_id, spec_batch_items(s0.current_batch))
        }),
{
    let ghost s0 = *state;
    let max_batch_size = config.max_batch_size;
    let max_batch_age_ms = config.max_batch_age_ms;
    let max_bandwidth_per_player = config.max_bandwidth_per_player;

    // Send the current batch when it is due.
    if state.should_send_batch(max_batch_size, max_batch_age_ms, now_ms) {
        let finished = state.finish_batch();
        match finished {
            Some(updates) => {
                if updates.len() > 0 {
                    let batch = create_batch(state.player_id, updates)?;
                    batches_to_send.push(batch);
                }
            },
            None => {},
        }
    }
    // Start a new batch where one is needed.
    if state.current_batch.is_none() && !state.update_queue.is_empty() {
        state.start_batch(now_ms);
    }
    let ghost b1 = batches_to_send@;
    let ghost start2 = state.batch_start_ms;
    let ghost base2 = spec_batch_items(state.current_batch);
    let ghost open2 = state.current_batch is Some;
    let ghost q0 = s0.update_queue.order();
    let ghost bytes3 = spec_window_bytes(s0.bytes_sent_this_second, s0.last_bandwidth_reset_ms, now_ms);
    let ghost last3 = spec_window_start(s0.last_bandwidth_reset_ms, now_ms);
    let ghost mut k: int = 0;
    proof {
        assert(q0.skip(0) =~= q0);
        assert(base2 + q0.take(0) =~= base2);
    }
    // Move waiting updates into the batch while the bandwidth allows.
    while !state.update_queue.is_empty()
        invariant
            state.update_queue.wf(),
            state.update_queue.limits() == s0.update_queue.limits(),
            state.player_id == s0.player_id,
            state.sequence_counter == s0.sequence_counter,
            state.stats == s0.stats,
            state.batch_start_ms == start2,
            batches_to_send@ == b1,
            bytes3 == spec_window_bytes(s0.bytes_sent_this_second, s0.last_bandwidth_reset_ms, now_ms),
            last3 == spec_window_start(s0.last_bandwidth_reset_ms, now_ms),
            0 <= k <= q0.len(),
            state.update_queue.order() == q0.skip(k),
            q0.len() > 0 ==> state.current_batch is Some,
            q0.len() == 0 ==> (state.current_batch is Some <==> open2),
            k == 0 ==> state.update_queue == s0.update_queue,
            spec_batch_items(state.current_batch) == base2 + q0.take(k),
            k > 0 ==> state.bytes_sent_this_second == bytes3 && state.last_bandwidth_reset_ms == last3
                && bytes3 + ESTIMATED_UPDATE_SIZE <= max_bandwidth_per_player,
            k == 0 ==> (state.bytes_sent_this_second == bytes3 && state.last_bandwidth_reset_ms == last3)
                || (state.bytes_sent_this_second == s0.bytes_sent_this_second
                && state.last_bandwidth_reset_ms == s0.last_bandwidth_reset_ms),
            q0.len() == 0 ==> state.bytes_sent_this_second == s0.bytes_sent_this_second
                && state.last_bandwidth_reset_ms == s0.last_bandwidth_reset_ms,
        ensures
            state.update_queue.wf(),
            state.update_queue.limits() == s0.update_queue.limits(),
            state.player_id == s0.player_id,
            state.sequence_counter == s0.sequence_counter,
            state.stats == s0.stats,
            state.batch_start_ms == start2,
            batches_to_send@ == b1,
            0 <= k <= q0.len(),
            state.update_queue.order() == q0.skip(k),
            q0.len() > 0 ==> state.current_batch is Some,
            q0.len() == 0 ==> (state.current_batch is Some <==> open2),
            k == 0 ==> state.update_queue == s0.update_queue,
            spec_batch_items(state.current_batch) == base2 + q0.take(k),
            q0.len() > 0 ==> state.bytes_sent_this_second == bytes3 && state.last_bandwidth_reset_ms == last3,
            q0.len() == 0 ==> state.bytes_sent_this_second == s0.bytes_sent_this_second
                && state.last_bandwidth_reset_ms == s0.last_bandwidth_reset_ms,
            q0.len() > 0 && bytes3 + ESTIMATED_UPDATE_SIZE <= max_bandwidth_per_player ==> k == q0.len(),
            !(bytes3 + ESTIMATED_UPDATE_SIZE <= max_bandwidth_per_player) ==> k == 0,
        decreases q0.len() - k,
    {
        let estimated_size: u32 = ESTIMATED_UPDATE_SIZE;
        let ghost before_bytes = state.bytes_sent_this_second;
        let ghost before_last = state.last_bandwidth_reset_ms;
        let room = state.has_bandwidth(estimated_size, max_bandwidth_per_player, now_ms);
        proof {
            lemma_window_restart_idempotent(s0.bytes_sent_this_second, s0.last_bandwidth_reset_ms, now_ms);
            assert(state.bytes_sent_this_second == spec_window_bytes(before_bytes, before_last, now_ms));
            assert(state.last_bandwidth_reset_ms == spec_window_start(before_last, now_ms));
            if before_bytes == bytes3 && before_last == last3 {
                assert(state.bytes_sent_this_second == bytes3);
            } else {
                assert(before_bytes == s0.bytes_sent_this_second);
                assert(state.bytes_sent_this_second == bytes3);
            }
        }
        if !room {
            break;
        }
        let popped = state.update_queue.pop();
        match popped {
            Some(update) => {
                if !state.add_to_batch(update) {
                    // No batch is open: close whatever is there and start afresh.
                    let finished = state.finish_batch();
                    match finished {
                        Some(updates) => {
                            if updates.len() > 0 {
                                let batch = create_batch(state.player_id, updates)?;
                                batches_to_send.push(batch);
                            }
                        },
                        None => {},
                    }
                    state.start_batch(now_ms);
                    let next = state.update_queue.pop();
                    match next {
                        Some(u) => {
                            state.add_to_batch(u);
                        },
                        None => {},
                    }
                    break;
                }
                proof {
                    assert(q0.skip(k + 1) =~= q0.skip(k).drop_first());
                    assert(base2 + q0.take(k + 1) =~= (base2 + q0.take(k)).push(q0[k]));
                    k = k + 1;
                }
            },
            None => {},
        }
    }
    proof {
        if k == q0.len() {
            assert(q0.take(k) =~= q0);
            assert(q0.skip(k) =~= Seq::<ReplicationUpdate>::empty());
        }
        if k == 0 {
            assert(q0.take(0) =~= Seq::<ReplicationUpdate>::empty());
            assert(base2 + Seq::<ReplicationUpdate>::empty() =~= base2);
            assert(q0.skip(0) =~= q0);
        }
        if state.update_queue.order().len() == 0 {
            lemma_order_empty_lanes(state.update_queue);
        }
        if q0.len() > 0 && bytes3 + ESTIMATED_UPDATE_SIZE <= config.max_bandwidth_per_player {
            assert(forall|p: ReplicationPriority| #[trigger] state.update_queue.lane(p) == Seq::<ReplicationUpdate>::empty());
        } else {
            assert(forall|p: ReplicationPriority| #[trigger] state.update_queue.lane(p) == s0.update_queue.lane(p));
        }
    }
    Ok(())
}


/// Processing a player neither loses nor duplicates updates, and keeps their
/// order: the batch handed out (if any), then the open batch, then the queue
/// hold exactly the updates of the open batch and then of the queue before.
/// (`due` and `granted` are the batch-due and bandwidth outcomes that
/// `process_player_updates` states its result by.)
pub proof fn law_processing_conserves_updates(
    batch_before: Seq<ReplicationUpdate>,
    queue_before: Seq<ReplicationUpdate>,
    due: bool,
    granted: bool,
)
    ensures
        ({
            let sent = due && batch_before.len() > 0;
            let base = if due { Seq::<ReplicationUpdate>::empty() } else { batch_before };
            let batch_after = if granted { base + queue_before } else { base };
            let queue_after = if granted { Seq::<ReplicationUpdate>::empty() } else { queue_before };
            (if sent { batch_before } else { Seq::<ReplicationUpdate>::empty() }) + batch_after + queue_after
                == batch_before + queue_before
        }),
{
    let sent = due && batch_before.len() > 0;
    let base = if due { Seq::<ReplicationUpdate>::empty() } else { batch_before };
    let batch_after = if granted { base + queue_before } else { base };
    let queue_after = if granted { Seq::<ReplicationUpdate>::empty() } else { queue_before };
    if due && batch_before.len() == 0 {
        assert(batch_before =~= Seq::<ReplicationUpdate>::empty());
    }
    assert((if sent { batch_before } else { Seq::<ReplicationUpdate>::empty() }) + batch_after + queue_after
        =~= batch_before + queue_before);
}

/// Processes a player's updates once (see `process_player_updates`) and then
/// closes the open batch regardless of its age, handing it out where it holds
/// updates.
pub fn flush_player_updates(
    state: &mut PlayerNetworkState,
    config: &NetworkConfig,
    now_ms: u64,
    batches_to_send: &mut Vec<ReplicationBatch>,
) -> (r: Result<(), NetworkError>)
    requires
        old(state).update_queue.wf(),
    ensures
        r is Ok,
        ({
            let s0 = *old(state);
            let s1 = *final(state);
            let due = spec_batch_due(s0.current_batch, s0.batch_start_ms, config.max_batch_size, config.max_batch_age_ms, now_ms);
            let sent = due && spec_batch_items(s0.current_batch).len() > 0;
            let q0 = s0.update_queue.order();
            let base = if due { Seq::<ReplicationUpdate>::empty() } else { spec_batch_items(s0.current_batch) };
            let bytes = spec_window_bytes(s0.bytes_sent_this_second, s0.last_bandwidth_reset_ms, now_ms);
            let granted = q0.len() > 0 && bytes + ESTIMATED_UPDATE_SIZE <= config.max_bandwidth_per_player;
            let last_batch = if granted { base + q0 } else { base };
            let n0 = old(batches_to_send)@.len();
            &&& s1.player_id == s0.player_id
            &&& s1.sequence_counter == s0.sequence_counter
            &&& s1.stats == s0.stats
            &&& s1.update_queue.wf()
            &&& s1.update_queue.limits() == s0.update_queue.limits()
            &&& (if granted {
                forall|p: ReplicationPriority| #[trigger] s1.update_queue.lane(p) == Seq::<ReplicationUpdate>::empty()
            } else {
                forall|p: ReplicationPriority| #[trigger] s1.update_queue.lane(p) == s0.update_queue.lane(p)
            })
            &&& s1.current_batch is None
            &&& s1.batch_start_ms is None
            &&& s1.bytes_sent_this_second == if q0.len() > 0 { bytes } else { s0.bytes_sent_this_second }
            &&& s1.last_bandwidth_reset_ms == if q0.len() > 0 {
                spec_window_start(s0.last_bandwidth_reset_ms, now_ms)
            } else {
                s0.last_bandwidth_reset_ms
            }
            &&& final(batches_to_send)@.len() == n0 + (if sent { 1int } else { 0int }) + (if last_batch.len() > 0 { 1int } else { 0int })
            &&& final(batches_to_send)@.take(n0 as int) == old(batches_to_send)@
            &&& sent ==> spec_is_batch_of(final(batches_to_send)@[n0 as int], s0.player_id, spec_batch_items(s0.current_batch))
            &&& last_batch.len() > 0 ==> spec_is_batch_of(final(batches_to_send)@.last(), s0.player_id, last_batch)
        }),
{
    let ghost b0 = batches_to_send@;
    process_player_updates(state, config, now_ms, batches_to_send)?;
    let ghost b1 = batches_to_send@;
    let finished = state.finish_batch();
    match finished {
        Some(updates) => {
            if updates.len() > 0 {
                let batch = create_batch(state.player_id, updates)?;
                batches_to_send.push(batch);
                proof {
                    assert(batches_to_send@.take(b1.len() as int) =~= b1);
                    assert(batches_to_send@.take(b0.len() as int) =~= b1.take(b0.len() as int));
                }
            }
        },
        None => {},
    }
    Ok(())
}


#[verifier::external_type_specification]
#[verifier::external_body]
pub struct ExIoError(std::io::Error);

/// The step of a DEFLATE compression run that failed.
#[derive(Debug, Clone, Copy, PartialEq, Eq, Structural)]
pub enum DeflateStep {
    /// Feeding the input to the encoder
    Write,
    /// Closing the compressed stream
    Finish,
}

/// A failed DEFLATE compression run: the step and the I/O error it reported.
#[derive(Debug)]
pub struct DeflateFailure {
    pub step: DeflateStep,
    pub error: std::io::Error,
}

/// The raw DEFLATE stream that `flate2`'s encoder at `Compression::fast()`
/// produces for `data`.
pub uninterp spec fn deflate_fast_stream(data: Seq<u8>) -> Seq<u8>;

/// What `flate2`'s raw DEFLATE decoder makes of `data`: the bytes it reads
/// out, or `None` where `data` is no valid DEFLATE stream.
pub uninterp spec fn inflate_result(data: Seq<u8>) -> Option<Seq<u8>>;

/// Compresses `data` with `flate2::write::DeflateEncoder` at
/// `Compression::fast()` into a `Vec` (`write_all`, then `finish`).
/// Claimed: the run succeeds (the sink is a `Vec`, whose writes never fail,
/// and the encoder reports an error only where the compressor fails, which
/// it does not on a fresh stream), it yields `deflate_fast_stream` of
/// `data`, and the decoder reads `data` back out of that stream (DEFLATE is
/// lossless).
#[verifier::external_body]
fn deflate_fast(data: &[u8]) -> (r: Result<Vec<u8>, DeflateFailure>)
    ensures
        r is Ok,
        r matches Ok(v) ==> v@ == deflate_fast_stream(data@),
        r matches Ok(v) ==> inflate_result(v@) == Some(data@),
{
    let mut encoder = flate2::write::DeflateEncoder::new(Vec::new(), flate2::Compression::fast());
    if let Err(error) = std::io::Write::write_all(&mut encoder, data) {
        return Err(DeflateFailure { step: DeflateStep::Write, error });
    }
    match encoder.finish() {
        Ok(v) => Ok(v),
        Err(error) => Err(DeflateFailure { step: DeflateStep::Finish, error }),
    }
}

/// Decompresses a raw DEFLATE stream with `flate2::read::DeflateDecoder`
/// (`read_to_end` into a new `Vec`). Claimed: the run succeeds exactly when
/// `inflate_result` of `data` is `Some`, and then yields those bytes.
#[verifier::external_body]
fn inflate(data: &[u8]) -> (r: Result<Vec<u8>, std::io::Error>)
    ensures
        r is Ok <==> inflate_result(data@) is Some,
        r matches Ok(v) ==> inflate_result(data@) == Some(v@),
{
    let mut decoder = flate2::read::DeflateDecoder::new(data);
    let mut decompressed = Vec::new();
    match std::io::Read::read_to_end(&mut decoder, &mut decompressed) {
        Ok(_) => Ok(decompressed),
        Err(e) => Err(e),
    }
}

/// The text of an I/O error (its `Display` output). Nothing is claimed of it.
#[verifier::external_body]
fn io_error_text(e: &std::io::Error) -> String {
    format!("{}", e)
}

/// A copy of the bytes of a slice.
fn copy_bytes(data: &[u8]) -> (v: Vec<u8>)
    ensures
        v@ == data@,
{
    let mut v: Vec<u8> = Vec::new();
    let mut i: usize = 0;
    while i < data.len()
        invariant
            i <= data@.len(),
            v@ == data@.take(i as int),
        decreases data@.len() - i,
    {
        v.push(data[i]);
        i = i + 1;
        assert(v@ =~= data@.take(i as int));
    }
    assert(data@.take(data@.len() as int) =~= data@);
    v
}

/// Chooses what to send of a payload: the compressed form where it is
/// smaller than the uncompressed payload, the payload itself otherwise.
pub fn smaller_payload(data: &[u8], compressed: Vec<u8>) -> (v: Vec<u8>)
    ensures
        v@ == if compressed@.len() < data@.len() {
            compressed@
        } else {
            data@
        },
{
    if compressed.len() < data.len() {
        compressed
    } else {
        copy_bytes(data)
    }
}

/// The bytes `compress_data` sends for `data`: the payload itself below
/// the threshold; otherwise the DEFLATE stream where it is smaller than the
/// payload, the payload where not.
pub open spec fn spec_compressed(data: Seq<u8>, threshold: usize) -> Seq<u8> {
    if data.len() < threshold || deflate_fast_stream(data).len() >= data.len() {
        data
    } else {
        deflate_fast_stream(data)
    }
}

/// What compression sends never grows the payload, leaves a payload
/// shorter than the threshold untouched, and changes a payload only into a
/// stream that decompresses back to it.
pub proof fn law_compression_keeps_small_payloads(data: Seq<u8>, threshold: usize)
    ensures
        data.len() < threshold ==> spec_compressed(data, threshold) == data,
        spec_compressed(data, threshold).len() <= data.len(),
        spec_compressed(data, threshold) != data ==> data.len() >= threshold && spec_compressed(data, threshold)
            == deflate_fast_stream(data) && deflate_fast_stream(data).len() < data.len(),
{
}

/// Compresses a payload with DEFLATE. A payload shorter than `threshold`
/// is returned as it is; otherwise the compressed stream is returned where
/// it is smaller, the payload where not. Compression always succeeds (a
/// failing run would give a `SerializationError` whose text starts with
/// "Compression failed: " or "Compression finalization failed: "). Where
/// the stream is chosen, decompressing it gives the payload back.
pub fn compress_data(data: &[u8], threshold: usize) -> (r: Result<Vec<u8>, NetworkError>)
    ensures
        r is Ok,
        r matches Ok(v) ==> v@ == spec_compressed(data@, threshold),
        data@.len() < threshold ==> (r matches Ok(v) && v@ == data@),
        r matches Ok(v) ==> v@.len() <= data@.len(),
        r matches Ok(v) ==> (v@ != data@ ==> inflate_result(v@) == Some(data@)),
{
    if data.len() < threshold {
        return Ok(copy_bytes(data));
    }
    match deflate_fast(data) {
        Ok(compressed) => Ok(smaller_payload(data, compressed)),
        Err(failure) => {
            let text = io_error_text(&failure.error);
            let prefix = match failure.step {
                DeflateStep::Write => "Compression failed: ",
                DeflateStep::Finish => "Compression finalization failed: ",
            };
            let msg = concat_str(prefix, text.as_str());
            proof {
                assert(msg@.take(prefix@.len() as int) =~= prefix@);
            }
            Err(NetworkError::SerializationError(msg))
        },
    }
}

/// Decompresses a raw DEFLATE stream. It succeeds exactly where the data
/// is a stream the decoder reads; otherwise it gives a `SerializationError`
/// whose text starts with "Decompression failed: ".
pub fn decompress_data(compressed_data: &[u8]) -> (r: Result<Vec<u8>, NetworkError>)
    ensures
        r is Ok <==> inflate_result(compressed_data@) is Some,
        r matches Ok(v) ==> inflate_result(compressed_data@) == Some(v@),
        r is Err ==> r->Err_0 is SerializationError,
        r matches Err(NetworkError::SerializationError(msg)) ==> spec_has_prefix(msg@, "Decompression failed: "@),
{
    match inflate(compressed_data) {
        Ok(v) => Ok(v),
        Err(e) => {
            let text = io_error_text(&e);
            let msg = concat_str("Decompression failed: ", text.as_str());
            proof {
                assert(msg@.take("Decompression failed: "@.len() as int) =~= "Decompression failed: "@);
            }
            Err(NetworkError::SerializationError(msg))
        },
    }
}

/// The bytes sent for a serialized batch: compressed (see `compress_data`)
/// where compression is enabled and the payload is longer than the
/// configured threshold, unchanged otherwise.
pub fn prepare_payload(config: &NetworkConfig, data: Vec<u8>) -> (r: Result<Vec<u8>, NetworkError>)
    ensures
        r is Ok,
        r matches Ok(v) ==> v@ == if config.compression_enabled && data@.len() > config.compression_threshold {
            spec_compressed(data@, config.compression_threshold)
        } else {
            data@
        },
        r matches Ok(v) ==> v@.len() <= data@.len(),
{
    if config.compression_enabled && data.len() > config.compression_threshold {
        compress_data(data.as_slice(), config.compression_threshold)
    } else {
        Ok(data)
    }
}

} // verus!
