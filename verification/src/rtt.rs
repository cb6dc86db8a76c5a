use vstd::prelude::*;
use std::sync::atomic::AtomicU64;
use std::sync::atomic::Ordering;
use crate::time::Duration;

verus! {

/// A round-trip time estimate in milliseconds, shared between threads.
///
/// The estimate lives in an atomic that other threads may change at any
/// time, so no contract below speaks of the value read.
pub struct RTT {
    pub smoothed: AtomicU64,
}

impl RTT {
    /// An estimate of 200 ms.
    pub fn new() -> Self {
        RTT { smoothed: AtomicU64::new(200) }
    }

    /// Replaces the estimate with `ms` milliseconds.
    pub fn sample_rtt(&self, ms: u64) {
        self.smoothed.store(ms, Ordering::Relaxed);
    }

    /// The current estimate as a span of time: a whole number of
    /// milliseconds that fits in a `u64`.
    pub fn estimate(&self) -> (d: Duration)
        ensures
            d.nanos % 1_000_000 == 0,
            d.nanos / 1_000_000 <= u64::MAX,
    {
        let v = self.smoothed.load(Ordering::Relaxed);
        let d = Duration::from_millis(v);
        assert(d.nanos % 1_000_000 == 0 && d.nanos / 1_000_000 == v) by (nonlinear_arith)
            requires
                d.nanos == v * 1_000_000,
        ;
        d
    }
}

} // verus!
