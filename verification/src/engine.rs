use crate::document::Snapshot;
use crate::key::CounterKey;
use crate::sequence::{spec_build, stops_view, Stop};
use vstd::prelude::*;

verus! {

/// One memoized sequence: the key it was built for, and its stops.
#[derive(Debug)]
pub struct CacheEntry {
    /// The counter key the sequence belongs to.
    pub key: CounterKey,
    /// The sequence built for that key from the engine's snapshot.
    pub stops: Vec<Stop>,
}

/// What one evaluation pass works against: the snapshot it queries, the
/// per-counter sequences already built from that snapshot, and whether
/// the pass's positions are settled. The cache is invalidated whole at
/// the start of each pass, never patched.
#[derive(Debug)]
pub struct Engine {
    /// The current document snapshot.
    pub snapshot: Snapshot,
    /// The sequences built so far in this pass, one per counter key.
    pub cache: Vec<CacheEntry>,
    /// Whether the deferred-execution scheduler has settled this pass's
    /// positions; location-dependent queries may run only then.
    pub deferred: bool,
}

impl Engine {
    /// Every memoized sequence is exactly what a fresh build from the
    /// current snapshot yields.
    pub open spec fn wf(&self) -> bool {
        &&& self.snapshot.wf()
        &&& forall|i: int|
            0 <= i < self.cache@.len() ==> spec_build(
                (#[trigger] self.cache@[i]).key,
                self.snapshot,
            ) == Some(stops_view(self.cache@[i].stops@))
    }

    /// A fresh engine for one evaluation pass: nothing memoized yet,
    /// positions not yet settled.
    pub fn new(snapshot: Snapshot) -> (r: Engine)
        requires
            snapshot.wf(),
        ensures
            r.wf(),
            r.snapshot == snapshot,
            r.cache@.len() == 0,
            !r.deferred,
    {
        Engine { snapshot, cache: Vec::new(), deferred: false }
    }

    /// Begin a new evaluation pass over a new snapshot: every memoized
    /// sequence is discarded, and positions are unsettled again.
    pub fn begin_pass(&mut self, snapshot: Snapshot)
        requires
            snapshot.wf(),
        ensures
            final(self).wf(),
            final(self).snapshot == snapshot,
            final(self).cache@.len() == 0,
            !final(self).deferred,
    {
        self.snapshot = snapshot;
        self.cache = Vec::new();
        self.deferred = false;
    }

    /// The deferred-execution scheduler's signal that this pass's
    /// positions are settled: location-dependent queries may now run.
    pub fn mark_settled(&mut self)
        ensures
            final(self).snapshot == old(self).snapshot,
            final(self).cache == old(self).cache,
            final(self).deferred,
    {
        self.deferred = true;
    }
}

} // verus!
