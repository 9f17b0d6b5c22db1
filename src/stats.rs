//! Per-endpoint counters: plain values for the decisions, atomics for sharing.
use vstd::prelude::*;
use std::sync::atomic::{AtomicU64, Ordering};

verus! {

/// A set of endpoint counters, or an increment to one.
#[derive(Debug, Clone, Copy, PartialEq, Eq, Structural)]
pub struct Counters {
    pub packets_received: u64,
    pub checksum_errors: u64,
    pub timeout_errors: u64,
    pub connection_errors: u64,
    pub reconnections: u64,
    pub sync_resets: u64,
}

impl Counters {
    /// All counters at zero.
    pub open spec fn zero_spec() -> Counters {
        Counters {
            packets_received: 0,
            checksum_errors: 0,
            timeout_errors: 0,
            connection_errors: 0,
            reconnections: 0,
            sync_resets: 0,
        }
    }

    pub fn zero() -> (r: Counters)
        ensures
            r == Counters::zero_spec(),
    {
        Counters {
            packets_received: 0,
            checksum_errors: 0,
            timeout_errors: 0,
            connection_errors: 0,
            reconnections: 0,
            sync_resets: 0,
        }
    }
}

/// The shared counters of one endpoint. Its own worker is the only writer;
/// the reporting task only reads.
#[derive(Debug, Default)]
pub struct ServerStats {
    pub packets_received: AtomicU64,
    pub checksum_errors: AtomicU64,
    pub timeout_errors: AtomicU64,
    pub connection_errors: AtomicU64,
    pub reconnections: AtomicU64,
    pub sync_resets: AtomicU64,
}

impl ServerStats {
    /// All counters at zero.
    pub fn new() -> Self {
        ServerStats {
            packets_received: AtomicU64::new(0),
            checksum_errors: AtomicU64::new(0),
            timeout_errors: AtomicU64::new(0),
            connection_errors: AtomicU64::new(0),
            reconnections: AtomicU64::new(0),
            sync_resets: AtomicU64::new(0),
        }
    }

    /// Adds `delta` to the counters, one relaxed fetch-add per non-zero field.
    pub fn add(&self, delta: &Counters) {
        if delta.packets_received != 0 {
            self.packets_received.fetch_add(delta.packets_received, Ordering::Relaxed);
        }
        if delta.checksum_errors != 0 {
            self.checksum_errors.fetch_add(delta.checksum_errors, Ordering::Relaxed);
        }
        if delta.timeout_errors != 0 {
            self.timeout_errors.fetch_add(delta.timeout_errors, Ordering::Relaxed);
        }
        if delta.connection_errors != 0 {
            self.connection_errors.fetch_add(delta.connection_errors, Ordering::Relaxed);
        }
        if delta.reconnections != 0 {
            self.reconnections.fetch_add(delta.reconnections, Ordering::Relaxed);
        }
        if delta.sync_resets != 0 {
            self.sync_resets.fetch_add(delta.sync_resets, Ordering::Relaxed);
        }
    }

    /// A relaxed reading of every counter.
    pub fn snapshot(&self) -> Counters {
        Counters {
            packets_received: self.packets_received.load(Ordering::Relaxed),
            checksum_errors: self.checksum_errors.load(Ordering::Relaxed),
            timeout_errors: self.timeout_errors.load(Ordering::Relaxed),
            connection_errors: self.connection_errors.load(Ordering::Relaxed),
            reconnections: self.reconnections.load(Ordering::Relaxed),
            sync_resets: self.sync_resets.load(Ordering::Relaxed),
        }
    }
}

} // verus!
