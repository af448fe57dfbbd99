//! Shutdown coordination for graceful server shutdown.
//!
//! The state is shared between clones (each flag sits behind an `Arc`), so
//! any component holding a clone sees a shutdown that another initiated.

use std::sync::atomic::AtomicBool;
use std::sync::Arc;
use vstd::prelude::*;

verus! {

/// Shared shutdown state for coordinating graceful shutdown across components.
#[derive(Debug, Clone)]
pub struct ShutdownState {
    shutdown_initiated: Arc<AtomicBool>,
    shutdown_complete: Arc<AtomicBool>,
}

impl ShutdownState {
    /// Creates a new shutdown state with both flags cleared.
    pub fn new() -> Self {
        ShutdownState {
            shutdown_initiated: Arc::new(AtomicBool::new(false)),
            shutdown_complete: Arc::new(AtomicBool::new(false)),
        }
    }

    /// Returns true if shutdown has been initiated - no new events should be
    /// processed. The flag is shared with other threads, so nothing is known
    /// of the value ahead of the read.
    pub fn is_shutdown_initiated(&self) -> bool {
        self.shutdown_initiated.load(std::sync::atomic::Ordering::Acquire)
    }

    /// Returns true if shutdown is complete and final cleanup can begin.
    pub fn is_shutdown_complete(&self) -> bool {
        self.shutdown_complete.load(std::sync::atomic::Ordering::Acquire)
    }

    /// Initiates shutdown - sets the flag to stop accepting new events.
    pub fn initiate_shutdown(&self) {
        self.shutdown_initiated.store(true, std::sync::atomic::Ordering::Release);
    }

    /// Marks shutdown as complete - all existing events have been processed.
    pub fn complete_shutdown(&self) {
        self.shutdown_complete.store(true, std::sync::atomic::Ordering::Release);
    }
}

impl Default for ShutdownState {
    /// A state with both flags cleared.
    fn default() -> Self {
        Self::new()
    }
}

} // verus!
