use vstd::prelude::*;
use std::sync::atomic::AtomicU64;
use std::sync::atomic::Ordering;

verus! {

/// A counter shared between threads.
///
/// The value lives in an atomic that other threads may change at any time, so
/// the contracts below say nothing of the values read; what each method adds
/// or subtracts is stated in its doc comment.
#[derive(Debug)]
pub struct Counter {
    value: AtomicU64,
}

impl Counter {
    /// A counter holding `start`.
    pub fn new(start: u64) -> Self {
        Counter { value: AtomicU64::new(start) }
    }

    /// The current value.
    pub fn get(&self) -> u64 {
        self.value.load(Ordering::Relaxed)
    }

    /// Adds one (wrapping) and returns the value after the addition.
    pub fn inc(&self) -> u64 {
        let before = self.value.fetch_add(1, Ordering::Relaxed);
        before.wrapping_add(1)
    }

    /// Subtracts one (wrapping) and returns the value after the subtraction.
    pub fn dec(&self) -> u64 {
        let before = self.value.fetch_sub(1, Ordering::Relaxed);
        before.wrapping_sub(1)
    }

    /// Replaces the value with `v`.
    pub fn set(&self, v: u64) {
        self.value.store(v, Ordering::Relaxed);
    }
}

} // verus!
