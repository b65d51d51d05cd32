//! Counters of a fuzzing run, shared between workers.
use vstd::prelude::*;
use std::sync::Arc;
use std::sync::atomic::{AtomicUsize, Ordering};

verus! {

/// Iterations and crashes so far. Workers update the counters concurrently, so
/// nothing is promised of the values one reads.
pub struct FuzzerStats {
    iterations: AtomicUsize,
    crashes: AtomicUsize,
}

impl FuzzerStats {
    /// Both counters at zero.
    pub fn new() -> Self {
        FuzzerStats { iterations: AtomicUsize::new(0), crashes: AtomicUsize::new(0) }
    }

    /// The counters behind a shared reference.
    pub fn to_arc(self) -> (r: Arc<Self>)
        ensures
            *r == self,
    {
        Arc::new(self)
    }

    pub fn get_iterations(&self) -> usize {
        self.iterations.load(Ordering::SeqCst)
    }

    pub fn inc_iterations(&self) {
        self.iterations.fetch_add(1, Ordering::SeqCst);
    }

    pub fn inc_iterations_by(&self, n: usize) {
        self.iterations.fetch_add(n, Ordering::SeqCst);
    }

    pub fn inc_crashes(&self) {
        self.crashes.fetch_add(1, Ordering::SeqCst);
    }

    pub fn get_crashes(&self) -> usize {
        self.crashes.load(Ordering::SeqCst)
    }
}

} // verus!
