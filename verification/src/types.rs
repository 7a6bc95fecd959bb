//! Core value types: identifiers, mesh points, fidelity steps and run metadata.

use vstd::prelude::*;

verus! {

/// Number of parallel workers for the executor.
pub type WorkerCount = usize;

/// Unique identifier for a candidate point.
#[derive(Clone, Copy, Debug, PartialEq, Eq, Hash, PartialOrd, Ord, Structural)]
pub struct CandidateId(pub u64);

/// Mesh coordinates in base-lattice units (integer).
#[derive(Clone, Debug, PartialEq, Eq, Hash)]
pub struct XMesh(pub Vec<i64>);

impl XMesh {
    /// A copy of this mesh point.
    pub fn duplicate(&self) -> (r: XMesh)
        ensures
            r@ == self@,
    {
        XMesh(self.0.clone())
    }
}

impl View for XMesh {
    type V = Seq<i64>;

    open spec fn view(&self) -> Seq<i64> {
        self.0@
    }
}

/// Solver tolerance level (larger means looser).
#[derive(Clone, Copy, Debug, PartialEq, Eq, Hash, PartialOrd, Ord, Structural)]
pub struct Tau(pub u64);

/// Monte Carlo sample count level.
#[derive(Clone, Copy, Debug, PartialEq, Eq, Hash, PartialOrd, Ord, Structural)]
pub struct Smc(pub u32);

/// Fidelity step.
#[derive(Clone, Copy, Debug, PartialEq, Eq, Hash, PartialOrd, Ord, Structural)]
pub struct Phi {
    pub tau: Tau,
    pub smc: Smc,
}

/// Run environment: every input that determines a run besides the configuration.
#[derive(Clone, Copy, Debug, PartialEq, Eq, Hash, Structural)]
pub struct Env {
    pub run_id: u128,
    pub config_hash: u128,
    pub data_snapshot_id: u128,
    pub rng_master_seed: u128,
}

/// Revision of the environment, used in cache keys.
#[derive(Clone, Copy, Debug, PartialEq, Eq, Hash, PartialOrd, Ord, Default, Structural)]
pub struct EnvRev(pub u128);

/// Revision of the policy state, used in decision-cache keys.
#[derive(Clone, Copy, Debug, PartialEq, Eq, Hash, PartialOrd, Ord, Default, Structural)]
pub struct PolicyRev(pub u64);

/// Which stage a cached decision belongs to.
#[derive(Clone, Copy, Debug, PartialEq, Eq, Hash, Structural)]
pub enum CacheTag {
    Cheap,
    Partial,
    Truth,
}

/// Cache key for expensive evaluation outputs.
#[derive(Clone, Debug, PartialEq, Eq, Hash)]
pub struct EvalCacheKey {
    pub x: XMesh,
    pub phi: Phi,
    pub env_rev: EnvRev,
}

/// Cache key for policy-dependent decisions.
#[derive(Clone, Debug, PartialEq, Eq, Hash)]
pub struct DecisionCacheKey {
    pub x: XMesh,
    pub phi: Phi,
    pub env_rev: EnvRev,
    pub policy_rev: PolicyRev,
    pub tag: CacheTag,
}

/// Whether a ready candidate starts its ladder or resumes it.
#[derive(Clone, Copy, Debug, PartialEq, Eq, Structural)]
pub enum ReadyKind {
    New,
    Resume,
}


/// Candidate lifecycle.
#[derive(Clone, Copy, Debug, PartialEq, Eq, Structural)]
pub enum CandidateStatus {
    Ready,
    InFlight { phi_idx: u32 },
    DoneRejectedCheap,
    DoneRejectedInvalidEval,
    DoneEarlyInfeasible { violated_j: usize, at_phi_idx: u32 },
    DoneStoppedPartial { at_phi_idx: u32 },
    DoneTruth,
}

/// Where an audited early cut happened, and the checkpoints its audit path visits.
#[derive(Clone, Debug)]
pub struct CandidateAuditOrigin {
    pub violated_j: usize,
    pub phi_at_cut: Phi,
    pub phi_idx_at_cut: u32,
    /// Same-S tighter-tau checkpoints collected along the audit path, in ladder order.
    pub paired_phi_indices: Vec<u32>,
}

/// Mathematical value of an audit origin.
#[verifier::ext_equal]
pub struct OriginView {
    pub violated_j: usize,
    pub phi_at_cut: Phi,
    pub phi_idx_at_cut: u32,
    pub paired_phi_indices: Seq<u32>,
}

impl View for CandidateAuditOrigin {
    type V = OriginView;

    open spec fn view(&self) -> OriginView {
        OriginView {
            violated_j: self.violated_j,
            phi_at_cut: self.phi_at_cut,
            phi_idx_at_cut: self.phi_idx_at_cut,
            paired_phi_indices: self.paired_phi_indices@,
        }
    }
}

/// The view of an optional audit origin.
pub open spec fn origin_view(o: Option<CandidateAuditOrigin>) -> Option<OriginView> {
    match o {
        Some(v) => Some(v@),
        None => None,
    }
}

/// Candidate state for resumable, step-wise evaluation.
///
/// Scores and estimates (floating-point data) are kept by the caller alongside it;
/// `last_estimates_phi_idx` records which ladder step the kept estimates belong to.
#[derive(Clone, Debug)]
pub struct CandidateStageState {
    pub id: CandidateId,
    pub x: XMesh,
    /// Monotone creation epoch (typically engine iteration index).
    pub created_epoch: u64,
    pub next_phi_idx: u32,
    pub last_estimates_phi_idx: Option<u32>,
    /// Sticky: once true, stays true.
    pub audit_required: bool,
    pub audit_origin: Option<CandidateAuditOrigin>,
    pub cheap_checked: bool,
    pub cheap_ok: bool,
    /// Snapshot bookkeeping to keep step decisions reproducible.
    pub submitted_policy_rev: PolicyRev,
    pub submitted_incumbent_id: u64,
    pub status: CandidateStatus,
}

/// Mathematical value of a candidate's state.
#[verifier::ext_equal]
pub struct CandView {
    pub id: CandidateId,
    pub x: Seq<i64>,
    pub created_epoch: u64,
    pub next_phi_idx: u32,
    pub last_estimates_phi_idx: Option<u32>,
    pub audit_required: bool,
    pub audit_origin: Option<OriginView>,
    pub cheap_checked: bool,
    pub cheap_ok: bool,
    pub submitted_policy_rev: PolicyRev,
    pub submitted_incumbent_id: u64,
    pub status: CandidateStatus,
}

impl View for CandidateStageState {
    type V = CandView;

    open spec fn view(&self) -> CandView {
        CandView {
            id: self.id,
            x: self.x@,
            created_epoch: self.created_epoch,
            next_phi_idx: self.next_phi_idx,
            last_estimates_phi_idx: self.last_estimates_phi_idx,
            audit_required: self.audit_required,
            audit_origin: origin_view(self.audit_origin),
            cheap_checked: self.cheap_checked,
            cheap_ok: self.cheap_ok,
            submitted_policy_rev: self.submitted_policy_rev,
            submitted_incumbent_id: self.submitted_incumbent_id,
            status: self.status,
        }
    }
}

/// A single unit of work: evaluate one fidelity step for one candidate.
#[derive(Clone, Debug)]
pub struct WorkItem {
    pub cand_id: CandidateId,
    pub x: XMesh,
    pub phi_idx: u32,
    pub phi: Phi,
    pub env_rev: EnvRev,
    pub policy_rev: PolicyRev,
    pub incumbent_id: u64,
}

/// The stage of a step at ladder index `phi_idx`: the last step is the truth step.
pub open spec fn step_tag(phi_idx: u32, ladder_len: int) -> CacheTag {
    if phi_idx + 1 == ladder_len { CacheTag::Truth } else { CacheTag::Partial }
}

impl WorkItem {
    /// The stage this item's step belongs to.
    pub fn cache_tag(&self, ladder_len: usize) -> (r: CacheTag)
        ensures
            r == step_tag(self.phi_idx, ladder_len as int),
    {
        if self.phi_idx as u64 + 1 == ladder_len as u64 {
            CacheTag::Truth
        } else {
            CacheTag::Partial
        }
    }

    /// The evaluation-cache key of this item: its point, step and environment revision.
    pub fn eval_key(&self) -> (r: EvalCacheKey)
        ensures
            r.x@ == self.x@,
            r.phi == self.phi,
            r.env_rev == self.env_rev,
    {
        EvalCacheKey { x: self.x.duplicate(), phi: self.phi, env_rev: self.env_rev }
    }

    /// The decision-cache key of this item: its point, step, environment and policy
    /// revisions, and the stage of the step.
    pub fn decision_key(&self, ladder_len: usize) -> (r: DecisionCacheKey)
        ensures
            r.x@ == self.x@,
            r.phi == self.phi,
            r.env_rev == self.env_rev,
            r.policy_rev == self.policy_rev,
            r.tag == step_tag(self.phi_idx, ladder_len as int),
    {
        let tag = self.cache_tag(ladder_len);
        DecisionCacheKey { x: self.x.duplicate(), phi: self.phi, env_rev: self.env_rev, policy_rev: self.policy_rev, tag }
    }
}

} // verus!
