//! The count of submissions since the last tick.

use std::sync::atomic::AtomicU64;
use std::sync::atomic::Ordering;
use vstd::prelude::*;

verus! {

/// Counts the tasks submitted to a pool between two ticks. Submitters add
/// to it from any thread without waiting; the tick takes what was counted.
#[derive(Debug)]
pub struct SubmissionCounter {
    pending: AtomicU64,
}

impl SubmissionCounter {
    /// A counter that has counted nothing.
    pub fn new() -> SubmissionCounter {
        SubmissionCounter { pending: AtomicU64::new(0) }
    }

    /// Counts one submission.
    pub fn increment_frequency(&self) {
        let _ = self.pending.fetch_add(1, Ordering::AcqRel);
    }

    /// Takes the submissions counted since the last call and starts again
    /// from none. What it returns depends on what other threads have added.
    pub fn take(&self) -> u64 {
        self.pending.swap(0, Ordering::SeqCst)
    }
}

} // verus!
