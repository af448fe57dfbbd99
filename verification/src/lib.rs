//! Horizon event system: the verified core of a game-server event and
//! replication (GORC) library.
//!
//! The crate holds the integer and collection logic of the system: replication
//! priorities, level-of-detail steps, the per-player priority update queue,
//! multicast group bookkeeping, zone virtualization bookkeeping, subscription
//! priority rules, configuration validation and tuning, event key routing and
//! handler statistics.

pub mod priority;

pub use priority::{CompressionType, GorcError, MineralType, ReplicationPriority};
pub mod types;

pub use types::{AuthenticationStatus, DisconnectReason, GorcObjectId, PlayerId, RegionId};
pub mod queue;

pub use queue::{PriorityUpdateQueue, QueueLimits, ReplicationUpdate};
pub mod lod;

pub use lod::{GroupStats, LodLevel, MulticastGroupId};
pub mod multicast;
pub mod group_registry;

pub use group_registry::{MulticastRegistry, MulticastStats};
pub use multicast::{GroupView, MulticastError, MulticastGroup};
pub mod config;

pub use config::{default_gorc_config, ConfigValidationError, GorcConfig, GorcGeneralConfig, MonitoringConfig};
pub mod subscription;

pub use subscription::{InterestLevel, RelationshipSubscription, SubscriptionStats, SubscriptionType};
pub mod events;

pub use events::{HandlerCategory, HandlerCategoryStats};
pub mod shutdown;

pub use shutdown::ShutdownState;
pub mod utils;

pub use utils::{current_timestamp, horizon_build_info, timestamp_from_reading, SerializationBufferPool, ABI_VERSION};
pub mod network;

pub use network::{NetworkError, PlayerNetworkState, PlayerStats, ReplicationBatch};
pub mod virtualization;

pub use virtualization::{SplitReason, VirtualZoneId, VirtualizationError, ZoneSplitRequest};
pub mod plugin;

pub use plugin::PluginError;
pub mod zone_data;

pub use zone_data::{MigrationGuide, PlayerDetailedData, PlayerMetadataData};
pub mod spatial_stats;

pub use spatial_stats::{NodeStats, SpatialIndexStats};
pub mod scheduler;

pub use scheduler::{SchedulerCounters, UpdateScheduler, UpdateSequencer};
pub mod layers;

pub use layers::{check_layer_channels, LayerChannelFault};
pub mod path_router;
pub mod zone_clusters;
pub mod dispatch;
pub mod lod_rooms;

pub use dispatch::{EmitFault, EventCounters};
pub mod object_registry;

pub use object_registry::{ObjectTypeRegistry, RegistryCounters};
