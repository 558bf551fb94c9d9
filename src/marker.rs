//! The playback marker: a silent unit that reports progress through a shared
//! counter.
use vstd::prelude::*;
use std::sync::Arc;
use std::sync::atomic::{AtomicU64, Ordering};

verus! {

/// Relies on `Arc::clone`: another handle to the same counter.
#[verifier::external_body]
pub(crate) fn share(counter: &Arc<AtomicU64>) -> (r: Arc<AtomicU64>)
    ensures
        r == *counter,
{
    Arc::clone(counter)
}

/// A silent unit that stamps its payload into a shared progress counter each
/// time it is processed.
pub struct Marker {
    pub payload: u64,
    pub output: Arc<AtomicU64>,
}

impl Marker {
    pub fn new(payload: u64, output: Arc<AtomicU64>) -> (r: Marker)
        ensures
            r.payload == payload,
            r.output == output,
    {
        Marker { payload, output }
    }

    /// One processing step: overwrites the shared counter with the payload,
    /// with relaxed ordering.
    pub fn tick(&self) {
        self.output.store(self.payload, Ordering::Relaxed);
    }
}

impl Clone for Marker {
    /// A marker with the same payload, stamping the same counter.
    fn clone(&self) -> (r: Marker)
        ensures
            r == *self,
    {
        Marker { payload: self.payload, output: share(&self.output) }
    }
}

} // verus!
