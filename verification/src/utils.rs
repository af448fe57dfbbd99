//! Timestamps, build information and the serialization buffer pool.

use crate::events::concat_str;
use vstd::prelude::*;

verus! {

/// Version of this crate.
pub const CRATE_VERSION: &'static str = "0.10.0";

/// Version of the Rust compiler, where the build recorded it.
pub const RUSTC_VERSION: &'static str = "unknown";

/// ABI version for plugin compatibility validation: `crate_version:rust_version`.
pub const ABI_VERSION: &'static str = "0.10.0:unknown";

/// Reads the system clock (`std::time::SystemTime::now`) and returns its
/// distance from the Unix epoch (`duration_since`) as whole seconds and the
/// nanoseconds beyond them, or `None` where the clock is set before the
/// epoch. Nothing is claimed of the value: it is the time.
#[verifier::external_body]
fn read_clock_since_epoch() -> Option<(u64, u32)> {
    match std::time::SystemTime::now().duration_since(std::time::UNIX_EPOCH) {
        Ok(d) => Some((d.as_secs(), d.subsec_nanos())),
        Err(_) => None,
    }
}

/// The Unix timestamp of a clock reading: the whole seconds since the
/// epoch, dropping the fraction of a second. A reading before the epoch
/// (`None`) gives 0.
pub fn timestamp_from_reading(reading: Option<(u64, u32)>) -> (t: u64)
    ensures
        t == match reading {
            Some((secs, _)) => secs,
            None => 0,
        },
{
    match reading {
        Some((secs, _nanos)) => secs,
        None => 0,
    }
}

/// Returns the current Unix timestamp in seconds: the system clock read
/// once and mapped by [`timestamp_from_reading`] (0 where the clock is set
/// before the Unix epoch).
pub fn current_timestamp() -> u64 {
    timestamp_from_reading(read_clock_since_epoch())
}

/// Returns the build info string with the crate and Rust compiler versions.
pub fn horizon_build_info() -> (s: String)
    ensures
        s@ == "Horizon Event System v"@ + CRATE_VERSION@ + " with Rust compiler v"@ + RUSTC_VERSION@,
{
    let a = concat_str("Horizon Event System v", CRATE_VERSION);
    let b = concat_str(a.as_str(), " with Rust compiler v");
    concat_str(b.as_str(), RUSTC_VERSION)
}

/// Pool used by the event system to serialize events before dispatch.
pub struct SerializationBufferPool {
    _reserved: (),
}

impl SerializationBufferPool {
    /// Creates an empty pool.
    pub fn new() -> Self {
        SerializationBufferPool { _reserved: () }
    }
}

impl Default for SerializationBufferPool {
    /// Creates an empty pool.
    fn default() -> Self {
        Self::new()
    }
}

} // verus!
