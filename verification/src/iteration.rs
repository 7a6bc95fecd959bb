//! Per-iteration control of the engine run: how many one-step work items an
//! iteration may still execute, when poll points are injected, and when the mesh
//! is refined. The loop that performs the work runs outside and reports here.

use vstd::prelude::*;
use crate::mesh::{refined_mul, MeshLattice};
use crate::types::CandidateId;

verus! {

/// The search dimension of a run: the configured one, else the evaluator's, else 1.
pub fn resolve_search_dim(configured: Option<usize>, evaluator_dim: Option<usize>) -> (r: usize)
    ensures
        r == (match configured {
            Some(d) => d,
            None => match evaluator_dim {
                Some(d) => d,
                None => 1usize,
            },
        }),
{
    match configured {
        Some(d) => d,
        None => match evaluator_dim {
            Some(d) => d,
            None => 1,
        },
    }
}

/// The number of work items dispatched together: the configured boundary, else the
/// scheduler's batch size, and at least 1.
pub fn batch_boundary(configured: Option<usize>, batch_size: usize) -> (r: usize)
    ensures
        r == (match configured {
            Some(b) => if b < 1 { 1usize } else { b },
            None => if batch_size < 1 { 1usize } else { batch_size },
        }),
        r >= 1,
{
    let b = match configured {
        Some(b) => b,
        None => batch_size,
    };
    if b < 1 { 1 } else { b }
}

/// Identifier of poll point `d` of iteration `iter`: the high bit set, the iteration
/// in bits 32 and up, the point's index in the low bits.
pub fn poll_candidate_id(iter: u64, d: u64) -> (r: CandidateId)
    ensures
        r.0 == (0x8000_0000_0000_0000u64 | (iter << 32u64)) | d,
{
    let base: u64 = 0x8000_0000_0000_0000u64 | (iter << 32u64);
    CandidateId(base | d)
}

/// State of one engine iteration.
#[derive(Clone, Copy, Debug, PartialEq, Eq, Structural)]
pub struct IterationControl {
    /// Whether poll points were injected in this iteration.
    pub poll_generated: bool,
    /// Whether this iteration found a new incumbent.
    pub iter_improved: bool,
    /// How many one-step work items the iteration may still execute.
    pub steps_left: usize,
}

impl IterationControl {
    /// A fresh iteration allowed `max_steps` steps (unbounded when absent).
    pub fn start(max_steps: Option<usize>) -> (r: IterationControl)
        ensures
            !r.poll_generated,
            !r.iter_improved,
            r.steps_left == (match max_steps {
                Some(s) => s,
                None => usize::MAX,
            }),
    {
        IterationControl {
            poll_generated: false,
            iter_improved: false,
            steps_left: match max_steps {
                Some(s) => s,
                None => usize::MAX,
            },
        }
    }

    /// Whether steps remain.
    pub fn has_steps(&self) -> (r: bool)
        ensures
            r == (self.steps_left > 0),
    {
        self.steps_left > 0
    }

    /// When nothing is ready: inject poll points once per iteration, only while the
    /// iteration has not improved and an incumbent exists to poll around.
    pub fn should_inject_poll(&self, has_incumbent: bool) -> (r: bool)
        ensures
            r == (!self.poll_generated && !self.iter_improved && has_incumbent),
    {
        !self.poll_generated && !self.iter_improved && has_incumbent
    }

    /// Record that poll points were injected.
    pub fn mark_poll_generated(&mut self)
        ensures
            *final(self) == (IterationControl { poll_generated: true, ..*old(self) }),
    {
        self.poll_generated = true;
    }

    /// Record a new incumbent.
    pub fn note_improvement(&mut self)
        ensures
            *final(self) == (IterationControl { iter_improved: true, ..*old(self) }),
    {
        self.iter_improved = true;
    }

    /// How many picked candidates a batch takes: bounded by the batch boundary and by
    /// the steps left.
    pub fn batch_take(&self, picked: usize, boundary: usize) -> (r: usize)
        ensures
            r <= picked,
            r <= boundary,
            r <= self.steps_left,
            r == picked || r == boundary || r == self.steps_left,
    {
        let a = if picked < boundary { picked } else { boundary };
        if a < self.steps_left { a } else { self.steps_left }
    }

    /// Count `completed` executed steps (saturating at zero).
    pub fn note_completed(&mut self, completed: usize)
        ensures
            final(self).steps_left == (if completed <= old(self).steps_left { (old(self).steps_left - completed) as usize } else { 0usize }),
            final(self).poll_generated == old(self).poll_generated,
            final(self).iter_improved == old(self).iter_improved,
    {
        self.steps_left = if completed <= self.steps_left { self.steps_left - completed } else { 0 };
    }

    /// End of the iteration: refine the mesh exactly when a poll was attempted and
    /// the iteration did not improve.
    pub fn finish(&self, mesh: &mut MeshLattice)
        ensures
            (self.poll_generated && !self.iter_improved) ==>
                final(mesh).mesh_mul as int == refined_mul(old(mesh).mesh_mul as int, old(mesh).refine_div, old(mesh).mesh_mul_min),
            !(self.poll_generated && !self.iter_improved) ==> final(mesh).mesh_mul == old(mesh).mesh_mul,
            final(mesh).mesh_mul_min == old(mesh).mesh_mul_min,
            final(mesh).refine_div == old(mesh).refine_div,
            final(mesh).poll_step_mult == old(mesh).poll_step_mult,
    {
        if self.poll_generated && !self.iter_improved {
            mesh.refine();
        }
    }
}

} // verus!
