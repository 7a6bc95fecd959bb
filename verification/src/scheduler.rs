//! The default scheduler: dispatch batches of one candidate per worker, in the
//! engine's deterministic ready order.

use vstd::prelude::*;
use crate::types::{CandidateId, WorkerCount};

verus! {

/// Whether in-flight jobs are cancelled when a new incumbent is found.
#[derive(Clone, Copy, Debug, PartialEq, Eq, Structural)]
pub enum CancelPolicy {
    Never,
    BestEffort,
}

/// FIFO scheduler: each batch takes the first `workers` ready candidates.
#[derive(Clone, Copy, Debug)]
pub struct DefaultScheduler {
    workers: WorkerCount,
}

impl DefaultScheduler {
    /// The configured worker count.
    pub closed spec fn workers(&self) -> nat {
        self.workers as nat
    }

    /// An unconfigured scheduler (batch size zero until configured).
    pub fn new() -> (r: DefaultScheduler)
        ensures
            r.workers() == 0,
    {
        DefaultScheduler { workers: 0 }
    }

    /// Configure for `workers` workers (at least one).
    pub fn configure(&mut self, workers: WorkerCount)
        ensures
            final(self).workers() == (if workers == 0 { 1 } else { workers as nat }),
    {
        self.workers = if workers == 0 { 1 } else { workers };
    }

    /// How many candidates a batch dispatches.
    pub fn batch_size(&self) -> (r: usize)
        ensures
            r == self.workers(),
    {
        self.workers
    }

    /// The candidates to dispatch next: the first `batch_size` of the ready list.
    pub fn select_next(&self, ready: &[CandidateId]) -> (r: Vec<CandidateId>)
        ensures
            r@ == ready@.take(if ready@.len() < self.workers() { ready@.len() as int } else { self.workers() as int }),
    {
        let n = if ready.len() < self.workers { ready.len() } else { self.workers };
        let mut out: Vec<CandidateId> = Vec::new();
        let mut i: usize = 0;
        while i < n
            invariant
                n <= ready@.len(),
                i <= n,
                out@ == ready@.take(i as int),
            decreases n - i,
        {
            out.push(ready[i]);
            i = i + 1;
            assert(out@ =~= ready@.take(i as int));
        }
        out
    }

    /// Cancel in-flight work on a new incumbent (best effort), never otherwise.
    pub fn should_cancel_inflight(&self, new_incumbent: bool) -> (r: CancelPolicy)
        ensures
            r == (if new_incumbent { CancelPolicy::BestEffort } else { CancelPolicy::Never }),
    {
        if new_incumbent {
            CancelPolicy::BestEffort
        } else {
            CancelPolicy::Never
        }
    }
}

} // verus!
