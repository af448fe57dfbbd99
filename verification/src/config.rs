//! Configuration of the GORC system: defaults, validation of the integer
//! settings, and the tuning rules that adapt a configuration to the machine
//! and the expected load.

use crate::priority::CompressionType;
use vstd::prelude::*;

verus! {

/// Configuration for the GORC system.
#[derive(Debug, Clone, Copy, PartialEq, Eq, Structural)]
pub struct GorcConfig {
    /// Maximum number of concurrent objects
    pub max_objects: usize,
    /// Default compression type
    pub default_compression: CompressionType,
    /// Enable adaptive frequency scaling
    pub adaptive_frequency: bool,
    /// Network optimization level
    pub optimization_level: u8,
}

/// The default GORC configuration: 10000 objects, LZ4 compression, adaptive
/// frequency scaling on, optimization level 2.
pub open spec fn spec_default_gorc_config() -> GorcConfig {
    GorcConfig {
        max_objects: 10000,
        default_compression: CompressionType::Lz4,
        adaptive_frequency: true,
        optimization_level: 2,
    }
}

/// Creates a default GORC system configuration.
pub fn default_gorc_config() -> (c: GorcConfig)
    ensures
        c == spec_default_gorc_config(),
{
    GorcConfig {
        max_objects: 10000,
        default_compression: CompressionType::Lz4,
        adaptive_frequency: true,
        optimization_level: 2,
    }
}

impl Default for GorcConfig {
    /// The default GORC configuration.
    fn default() -> (c: Self)
        ensures
            c == spec_default_gorc_config(),
    {
        default_gorc_config()
    }
}

/// General GORC system configuration.
#[derive(Debug, Clone, Copy, PartialEq, Eq, Structural)]
pub struct GorcGeneralConfig {
    /// Maximum number of objects that can be registered
    pub max_objects: usize,
    /// Maximum number of concurrent players
    pub max_players: usize,
    /// Maximum number of channels per object
    pub max_channels_per_object: u8,
    /// Enable automatic zone optimization
    pub auto_optimize_zones: bool,
    /// Frequency of zone optimization checks (in milliseconds)
    pub optimization_interval_ms: u64,
    /// Enable debug logging for GORC operations
    pub debug_logging: bool,
}

impl Default for GorcGeneralConfig {
    /// 10000 objects, 1000 players, 8 channels per object, zone optimization
    /// every 5 seconds, no debug logging.
    fn default() -> (c: Self)
        ensures
            c == (GorcGeneralConfig {
                max_objects: 10000,
                max_players: 1000,
                max_channels_per_object: 8,
                auto_optimize_zones: true,
                optimization_interval_ms: 5000,
                debug_logging: false,
            }),
    {
        GorcGeneralConfig {
            max_objects: 10000,
            max_players: 1000,
            max_channels_per_object: 8,
            auto_optimize_zones: true,
            optimization_interval_ms: 5000,
            debug_logging: false,
        }
    }
}

/// Performance monitoring configuration.
#[derive(Debug, Clone, Copy, PartialEq, Eq, Structural)]
pub struct MonitoringConfig {
    /// Enable performance statistics collection
    pub enable_stats: bool,
    /// Statistics reporting interval in milliseconds
    pub stats_interval_ms: u64,
    /// Enable performance profiling
    pub enable_profiling: bool,
    /// Maximum number of performance samples to keep
    pub max_performance_samples: usize,
    /// Enable memory usage tracking
    pub track_memory_usage: bool,
    /// Log slow operations (threshold in microseconds)
    pub slow_operation_threshold_us: u64,
    /// Enable real-time performance alerts
    pub enable_performance_alerts: bool,
}

impl Default for MonitoringConfig {
    /// Statistics every 10 seconds, no profiling, 1000 samples, memory
    /// tracking, a 1 ms slow-operation threshold, alerts on.
    fn default() -> (c: Self)
        ensures
            c == (MonitoringConfig {
                enable_stats: true,
                stats_interval_ms: 10000,
                enable_profiling: false,
                max_performance_samples: 1000,
                track_memory_usage: true,
                slow_operation_threshold_us: 1000,
                enable_performance_alerts: true,
            }),
    {
        MonitoringConfig {
            enable_stats: true,
            stats_interval_ms: 10000,
            enable_profiling: false,
            max_performance_samples: 1000,
            track_memory_usage: true,
            slow_operation_threshold_us: 1000,
            enable_performance_alerts: true,
        }
    }
}

/// Configuration validation errors.
#[derive(Debug)]
pub enum ConfigValidationError {
    InvalidValue(String),
    MissingRequired(String),
    Conflict(String),
}

/// Which integer rule a configuration breaks first.
#[derive(Debug, Clone, Copy, PartialEq, Eq, Structural)]
pub enum ConfigRule {
    /// `max_objects` must be > 0
    MaxObjectsZero,
    /// `max_players` must be > 0
    MaxPlayersZero,
    /// `max_channels_per_object` cannot exceed 8
    TooManyChannels,
    /// `max_objects_per_leaf` must be greater than 0
    LeafCapacityZero,
    /// `rebuild_threshold` must be greater than 0
    RebuildThresholdZero,
    /// `max_batch_size` must be > 0
    BatchSizeZero,
}

/// The message of the validation error for a rule.
pub open spec fn spec_rule_text(r: ConfigRule) -> Seq<char> {
    match r {
        ConfigRule::MaxObjectsZero => "max_objects must be > 0"@,
        ConfigRule::MaxPlayersZero => "max_players must be > 0"@,
        ConfigRule::TooManyChannels => "max_channels_per_object cannot exceed 8"@,
        ConfigRule::LeafCapacityZero => "max_objects_per_leaf must be greater than 0"@,
        ConfigRule::RebuildThresholdZero => "rebuild_threshold must be greater than 0"@,
        ConfigRule::BatchSizeZero => "max_batch_size must be > 0"@,
    }
}

impl ConfigRule {
    /// The message the validation error carries for this rule.
    pub fn message(&self) -> (s: String)
        ensures
            s@ == spec_rule_text(*self),
    {
        match self {
            ConfigRule::MaxObjectsZero => "max_objects must be > 0".to_owned(),
            ConfigRule::MaxPlayersZero => "max_players must be > 0".to_owned(),
            ConfigRule::TooManyChannels => "max_channels_per_object cannot exceed 8".to_owned(),
            ConfigRule::LeafCapacityZero => "max_objects_per_leaf must be greater than 0".to_owned(),
            ConfigRule::RebuildThresholdZero => "rebuild_threshold must be greater than 0".to_owned(),
            ConfigRule::BatchSizeZero => "max_batch_size must be > 0".to_owned(),
        }
    }

    /// The validation error for this rule: an `InvalidValue` with its message.
    pub fn to_error(&self) -> (e: ConfigValidationError)
        ensures
            e matches ConfigValidationError::InvalidValue(m) && m@ == spec_rule_text(*self),
    {
        ConfigValidationError::InvalidValue(self.message())
    }
}

/// The first rule the general settings break, if any.
pub open spec fn spec_general_violation(c: GorcGeneralConfig) -> Option<ConfigRule> {
    if c.max_objects == 0 {
        Some(ConfigRule::MaxObjectsZero)
    } else if c.max_players == 0 {
        Some(ConfigRule::MaxPlayersZero)
    } else if c.max_channels_per_object > 8 {
        Some(ConfigRule::TooManyChannels)
    } else {
        None
    }
}

/// Checks the general settings: objects and players must be allowed, and an
/// object may use at most 8 channels.
pub fn check_general(c: &GorcGeneralConfig) -> (r: Option<ConfigRule>)
    ensures
        r == spec_general_violation(*c),
{
    if c.max_objects == 0 {
        Some(ConfigRule::MaxObjectsZero)
    } else if c.max_players == 0 {
        Some(ConfigRule::MaxPlayersZero)
    } else if c.max_channels_per_object > 8 {
        Some(ConfigRule::TooManyChannels)
    } else {
        None
    }
}

/// The first rule the spatial index sizes break, if any.
pub open spec fn spec_spatial_violation(max_objects_per_leaf: usize, rebuild_threshold: usize) -> Option<ConfigRule> {
    if max_objects_per_leaf == 0 {
        Some(ConfigRule::LeafCapacityZero)
    } else if rebuild_threshold == 0 {
        Some(ConfigRule::RebuildThresholdZero)
    } else {
        None
    }
}

/// Checks the spatial index sizes: leaves must hold objects and rebuilds
/// must be triggered by at least one mutation.
pub fn check_spatial_sizes(max_objects_per_leaf: usize, rebuild_threshold: usize) -> (r: Option<ConfigRule>)
    ensures
        r == spec_spatial_violation(max_objects_per_leaf, rebuild_threshold),
{
    if max_objects_per_leaf == 0 {
        Some(ConfigRule::LeafCapacityZero)
    } else if rebuild_threshold == 0 {
        Some(ConfigRule::RebuildThresholdZero)
    } else {
        None
    }
}

/// Checks the network batch size, which must be positive.
pub fn check_batch_size(max_batch_size: usize) -> (r: Option<ConfigRule>)
    ensures
        r == if max_batch_size == 0 {
            Some(ConfigRule::BatchSizeZero)
        } else {
            None::<ConfigRule>
        },
{
    if max_batch_size == 0 {
        Some(ConfigRule::BatchSizeZero)
    } else {
        None
    }
}

/// How strongly zone virtualization is used.
#[derive(Debug, Clone, Copy, PartialEq, Eq, Structural)]
pub enum VirtualizationMode {
    /// Virtualization on with a density threshold of 0.2 and at most 100
    /// objects per virtual zone (more than 1000 expected players)
    Aggressive,
    /// Virtualization on with a density threshold of 0.5 (more than 100
    /// expected players)
    Standard,
    /// Virtualization off (small games)
    Disabled,
}

/// The settings that tuning for a machine and a load decides.
#[derive(Debug, Clone, Copy, PartialEq, Eq, Structural)]
pub struct SystemTuning {
    /// New maximum number of objects
    pub max_objects: usize,
    /// New maximum number of players
    pub max_players: usize,
    /// Virtualization mode to apply
    pub virtualization: VirtualizationMode,
    /// New R-tree leaf capacity
    pub max_objects_per_leaf: usize,
    /// New number of mutations before a rebuild
    pub rebuild_threshold: usize,
    /// Whether the spatial index caches queries
    pub enable_caching: bool,
    /// Whether the network switches to its high-load settings (batches of
    /// 2000, compression on, compressing from 512 bytes)
    pub high_load_network: bool,
}

/// The capacity multiplier of a machine: cores times gigabytes, at most 100.
pub open spec fn spec_capacity_multiplier(cpu_cores: usize, memory_gb: usize) -> int {
    vstd::math::min(cpu_cores * memory_gb, 100)
}

/// The tuning decided for a machine and an expected number of players.
pub open spec fn spec_tune(general: GorcGeneralConfig, cpu_cores: usize, memory_gb: usize, expected_players: usize) -> SystemTuning {
    let m = spec_capacity_multiplier(cpu_cores, memory_gb);
    SystemTuning {
        max_objects: vstd::math::min(m * 500, general.max_objects as int) as usize,
        max_players: vstd::math::min(m * 50, general.max_players as int) as usize,
        virtualization: if expected_players > 1000 {
            VirtualizationMode::Aggressive
        } else if expected_players > 100 {
            VirtualizationMode::Standard
        } else {
            VirtualizationMode::Disabled
        },
        max_objects_per_leaf: if memory_gb >= 16 {
            128
        } else if memory_gb >= 8 {
            64
        } else {
            32
        },
        rebuild_threshold: if memory_gb >= 16 {
            10_000
        } else if memory_gb >= 8 {
            5_000
        } else {
            2_000
        },
        enable_caching: memory_gb >= 8,
        high_load_network: expected_players > 1000,
    }
}

/// Decides how to adapt a configuration to a machine with `cpu_cores` cores
/// and `memory_gb` gigabytes and to `expected_players` players: capacities
/// scale with cores times memory (capped at 100) and never grow, the
/// virtualization mode follows the expected load, and the spatial index
/// sizes follow the memory.
pub fn tune_for_system(general: &GorcGeneralConfig, cpu_cores: usize, memory_gb: usize, expected_players: usize) -> (t: SystemTuning)
    requires
        cpu_cores * memory_gb <= usize::MAX,
    ensures
        t == spec_tune(*general, cpu_cores, memory_gb, expected_players),
        t.enable_caching <==> memory_gb >= 8,
        memory_gb >= 16 ==> t.max_objects_per_leaf == 128 && t.rebuild_threshold == 10_000,
        8 <= memory_gb < 16 ==> t.max_objects_per_leaf == 64 && t.rebuild_threshold == 5_000,
        memory_gb < 8 ==> t.max_objects_per_leaf == 32 && t.rebuild_threshold == 2_000,
{
    let product = cpu_cores * memory_gb;
    let multiplier: usize = if product < 100 { product } else { 100 };
    let object_cap = multiplier * 500;
    let player_cap = multiplier * 50;
    let max_objects = if object_cap < general.max_objects { object_cap } else { general.max_objects };
    let max_players = if player_cap < general.max_players { player_cap } else { general.max_players };
    let virtualization = if expected_players > 1000 {
        VirtualizationMode::Aggressive
    } else if expected_players > 100 {
        VirtualizationMode::Standard
    } else {
        VirtualizationMode::Disabled
    };
    let (max_objects_per_leaf, rebuild_threshold, enable_caching) = if memory_gb >= 16 {
        (128usize, 10_000usize, true)
    } else if memory_gb >= 8 {
        (64usize, 5_000usize, true)
    } else {
        (32usize, 2_000usize, false)
    };
    SystemTuning {
        max_objects,
        max_players,
        virtualization,
        max_objects_per_leaf,
        rebuild_threshold,
        enable_caching,
        high_load_network: expected_players > 1000,
    }
}

/// Tuning never raises the object or player capacity, and keeps both within
/// what the machine allows (500 objects and 50 players per capacity unit).
pub proof fn law_tuning_never_grows_capacity(general: GorcGeneralConfig, cpu_cores: usize, memory_gb: usize, expected_players: usize)
    ensures
        spec_tune(general, cpu_cores, memory_gb, expected_players).max_objects <= general.max_objects,
        spec_tune(general, cpu_cores, memory_gb, expected_players).max_players <= general.max_players,
        spec_tune(general, cpu_cores, memory_gb, expected_players).max_objects <= 50_000,
        spec_tune(general, cpu_cores, memory_gb, expected_players).max_players <= 5_000,
{
    let m = spec_capacity_multiplier(cpu_cores, memory_gb);
    assert(0 <= cpu_cores * memory_gb) by (nonlinear_arith);
    assert(0 <= m <= 100);
}

/// Tuning keeps the spatial index sizes valid: the tuned leaf capacity and
/// rebuild threshold pass the spatial checks.
pub proof fn law_tuning_keeps_spatial_sizes_valid(general: GorcGeneralConfig, cpu_cores: usize, memory_gb: usize, expected_players: usize)
    ensures
        spec_spatial_violation(
            spec_tune(general, cpu_cores, memory_gb, expected_players).max_objects_per_leaf,
            spec_tune(general, cpu_cores, memory_gb, expected_players).rebuild_threshold,
        ) is None,
{
}


/// Tuning a valid configuration for a machine with at least one core and one
/// gigabyte keeps its general settings valid: the tuned capacities stay
/// positive.
pub proof fn law_tuning_keeps_general_settings_valid(
    general: GorcGeneralConfig,
    cpu_cores: usize,
    memory_gb: usize,
    expected_players: usize,
)
    requires
        spec_general_violation(general) is None,
        cpu_cores >= 1,
        memory_gb >= 1,
    ensures
        spec_general_violation(
            GorcGeneralConfig {
                max_objects: spec_tune(general, cpu_cores, memory_gb, expected_players).max_objects,
                max_players: spec_tune(general, cpu_cores, memory_gb, expected_players).max_players,
                ..general
            },
        ) is None,
{
    assert(cpu_cores * memory_gb >= 1) by (nonlinear_arith)
        requires
            cpu_cores >= 1,
            memory_gb >= 1,
    ;
}

/// The spatial index settings follow the memory and only the memory: query
/// caching is on exactly for machines with at least 8 GB, and more memory
/// never gives a smaller leaf capacity or rebuild threshold, nor turns
/// caching off.
pub proof fn law_spatial_settings_follow_memory(
    general: GorcGeneralConfig,
    cpu_cores: usize,
    memory_gb: usize,
    expected_players: usize,
    other_cores: usize,
    more_memory_gb: usize,
    other_players: usize,
)
    requires
        memory_gb <= more_memory_gb,
    ensures
        spec_tune(general, cpu_cores, memory_gb, expected_players).enable_caching <==> memory_gb >= 8,
        ({
            let t = spec_tune(general, cpu_cores, memory_gb, expected_players);
            let u = spec_tune(general, other_cores, more_memory_gb, other_players);
            &&& t.max_objects_per_leaf <= u.max_objects_per_leaf
            &&& t.rebuild_threshold <= u.rebuild_threshold
            &&& t.enable_caching ==> u.enable_caching
            &&& t.enable_caching <==> t.max_objects_per_leaf >= 64
        }),
{
}

} // verus!
