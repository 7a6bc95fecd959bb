//! The engine's step logic: how one completed fidelity step moves a candidate through
//! its life cycle, how work is dispatched, and how run statistics are counted.
//!
//! The engine loop itself (search proposals, floating-point margins, the executor)
//! runs outside; it hands each completed step to `CandidateStageState::materialize_step`
//! as plain values and acts on the returned `StepDecision`.

use vstd::prelude::*;
use crate::calibrator::AuditOf;
use crate::ladder::{
    audit_target, collect_paired_phi_indices, is_paired_checkpoint, next_audit_target_idx,
    objective_pruning_allowed, paired_indices, pruning_allowed, PruneGate,
};
use crate::types::{
    CacheTag, CandView, CandidateAuditOrigin, CandidateId, CandidateStageState, CandidateStatus,
    EnvRev, OriginView, Phi, PolicyRev, ReadyKind, WorkItem, XMesh,
};

verus! {

// ----------------------------
// Step inputs and decisions
// ----------------------------

/// A decision found in the decision cache for this step.
#[derive(Clone, Copy, Debug, PartialEq, Eq, Structural)]
pub enum CachedDecision {
    RejectedCheap,
    RejectedInvalidEval,
    /// `phi` is the fidelity step recorded with the cached result.
    EarlyInfeasible { violated_j: usize, phi: Phi },
    Partial { phi: Phi },
    Truth { phi: Phi },
}

/// Outcome of the cheap-constraint gate (Stage A), evaluated once per candidate.
#[derive(Clone, Copy, Debug, PartialEq, Eq, Structural)]
pub enum CheapGate {
    /// The point could not be mapped to valid continuous coordinates.
    InvalidInput,
    /// The cheap constraints were evaluated; `true` means the point passed.
    Checked(bool),
}

/// A freshly evaluated step.
#[derive(Clone, Copy, Debug, PartialEq, Eq, Structural)]
pub struct FreshStep {
    /// The cheap gate's outcome; needed only while the candidate is not yet checked.
    pub cheap: Option<CheapGate>,
    /// First constraint the margin policy declares infeasible at this step, if any.
    pub early_infeasible: Option<usize>,
    /// Whether an incumbent exists and the optimistic objective bound cannot beat it.
    pub prune_bound_hit: bool,
}

/// What the executor produced for one step.
#[derive(Clone, Copy, Debug, PartialEq, Eq, Structural)]
pub enum StepInput {
    Cached(CachedDecision),
    Fresh(FreshStep),
}

/// Which result a step reports.
#[derive(Clone, Copy, Debug, PartialEq, Eq, Structural)]
pub enum StepResult {
    /// The cached decision, unchanged.
    Cached,
    RejectedInvalidEval,
    RejectedCheap,
    EarlyInfeasible { violated_j: usize },
    Partial,
    Truth,
}

/// The decision for one completed step.
#[derive(Clone, Copy, Debug, PartialEq, Eq, Structural)]
pub struct StepDecision {
    pub result: StepResult,
    /// Store the produced result in the decision cache under this tag.
    pub store: Option<CacheTag>,
    /// Whether this completion is part of an audit path.
    pub audited: bool,
    /// The early cut being audited, if any.
    pub audit_of: Option<AuditOf>,
    /// Whether this step is a paired checkpoint of the audit (attach a paired sample).
    pub paired_sample: bool,
    /// Whether the step's estimates become the candidate's last estimates.
    pub keep_estimates: bool,
    /// Whether the step's estimates become the candidate's audit-cut estimates.
    pub keep_cut_estimates: bool,
    /// Whether the step counts as an invalid-evaluation reject.
    pub invalid_reject: bool,
    /// Whether the step counts as a cheap-constraint reject.
    pub cheap_reject: bool,
}

// ----------------------------
// The step rule
// ----------------------------

/// The early cut of constraint `j` at `phi_idx` is allowed by the DIDS assignment:
/// the 1-based level reaches `a_j` (a missing `a_j` counts as the ladder length).
pub open spec fn cut_allowed(phi_idx: u32, j: usize, assignment: Seq<usize>, ladder_len: int) -> bool {
    let aj = if j < assignment.len() { assignment[j as int] as int } else { ladder_len };
    phi_idx + 1 >= aj
}

/// The audit origin created for a cut of `j` at `phi_idx` (fidelity `phi_cut`).
pub open spec fn new_origin(j: usize, phi_cut: Phi, phi_idx: u32, ladder: Seq<Phi>) -> OriginView {
    OriginView {
        violated_j: j,
        phi_at_cut: phi_cut,
        phi_idx_at_cut: phi_idx,
        paired_phi_indices: paired_indices(ladder, phi_idx as int),
    }
}

/// The audit reference carried by an origin.
pub open spec fn audit_of_view(o: Option<OriginView>) -> Option<AuditOf> {
    match o {
        Some(v) => Some(AuditOf { violated_j: v.violated_j, phi_at_cut: v.phi_at_cut, phi_idx_at_cut: v.phi_idx_at_cut }),
        None => None,
    }
}

/// `phi_idx` is a paired checkpoint of the origin.
pub open spec fn paired_hit(o: Option<OriginView>, phi_idx: u32) -> bool {
    match o {
        Some(v) => v.paired_phi_indices.contains(phi_idx),
        None => false,
    }
}

/// A decision with the given result and cache store, and no audit data.
pub open spec fn plain(result: StepResult, store: Option<CacheTag>, keep: bool) -> StepDecision {
    StepDecision {
        result,
        store,
        audited: false,
        audit_of: None,
        paired_sample: false,
        keep_estimates: keep,
        keep_cut_estimates: false,
        invalid_reject: false,
        cheap_reject: false,
    }
}

/// The candidate after an early cut of `j` is seen: if the cut is allowed, the candidate
/// is not yet audited and the audit policy selects it, it becomes audit-required with a
/// new origin at this step.
pub open spec fn with_cut(c: CandView, j: usize, phi_cut: Phi, phi_idx: u32, ladder: Seq<Phi>, assignment: Seq<usize>, selected: bool) -> CandView {
    if !c.audit_required && cut_allowed(phi_idx, j, assignment, ladder.len() as int) && selected {
        CandView { audit_required: true, audit_origin: Some(new_origin(j, phi_cut, phi_idx, ladder)), ..c }
    } else {
        c
    }
}

/// Outcome of an allowed early cut: an audited candidate moves on along its audit path,
/// otherwise it is finished as early infeasible.
pub open spec fn cut_outcome(was_audited: bool, c: CandView, j: usize, phi_idx: u32, ladder_len: int, result: StepResult, store: Option<CacheTag>) -> (CandView, StepDecision) {
    if c.audit_required {
        (
            CandView { next_phi_idx: audit_target(c.audit_origin, phi_idx, ladder_len), status: CandidateStatus::Ready, ..c },
            StepDecision {
                result,
                store,
                audited: true,
                audit_of: audit_of_view(c.audit_origin),
                paired_sample: paired_hit(c.audit_origin, phi_idx),
                keep_estimates: true,
                keep_cut_estimates: !was_audited,
                invalid_reject: false,
                cheap_reject: false,
            },
        )
    } else {
        (
            CandView { status: CandidateStatus::DoneEarlyInfeasible { violated_j: j, at_phi_idx: phi_idx }, ..c },
            plain(result, store, true),
        )
    }
}

/// The state transition applied for a cached partial result.
pub open spec fn partial_transition(c: CandView, phi_idx: u32, ladder_len: int) -> CandView {
    if phi_idx + 1 >= ladder_len {
        CandView { status: CandidateStatus::DoneTruth, ..c }
    } else if c.audit_required {
        CandView { next_phi_idx: audit_target(c.audit_origin, phi_idx, ladder_len), status: CandidateStatus::Ready, ..c }
    } else {
        CandView { next_phi_idx: (phi_idx + 1) as u32, status: CandidateStatus::Ready, ..c }
    }
}

/// The state transition implied by a result, without audit selection.
pub open spec fn result_transition(c: CandView, phi_idx: u32, cd: CachedDecision, ladder_len: int) -> CandView {
    match cd {
        CachedDecision::RejectedCheap => CandView { status: CandidateStatus::DoneRejectedCheap, ..c },
        CachedDecision::RejectedInvalidEval => CandView { status: CandidateStatus::DoneRejectedInvalidEval, ..c },
        CachedDecision::EarlyInfeasible { violated_j, .. } => if c.audit_required {
            CandView { next_phi_idx: audit_target(c.audit_origin, phi_idx, ladder_len), status: CandidateStatus::Ready, ..c }
        } else {
            CandView { status: CandidateStatus::DoneEarlyInfeasible { violated_j, at_phi_idx: phi_idx }, ..c }
        },
        CachedDecision::Partial { .. } => partial_transition(c, phi_idx, ladder_len),
        CachedDecision::Truth { .. } => CandView { status: CandidateStatus::DoneTruth, ..c },
    }
}

/// How a step served from the decision cache moves the candidate.
pub open spec fn cached_step(c: CandView, phi_idx: u32, ladder: Seq<Phi>, assignment: Seq<usize>, selected: bool, cd: CachedDecision) -> (CandView, StepDecision) {
    let len = ladder.len() as int;
    match cd {
        CachedDecision::Partial { phi } => {
            let c1 = CandView { last_estimates_phi_idx: Some(phi_idx), ..c };
            (
                partial_transition(c1, phi_idx, len),
                StepDecision {
                    result: StepResult::Cached,
                    store: None,
                    audited: c.audit_required,
                    audit_of: audit_of_view(c.audit_origin),
                    paired_sample: paired_hit(c.audit_origin, phi_idx),
                    keep_estimates: true,
                    keep_cut_estimates: false,
                    invalid_reject: false,
                    cheap_reject: false,
                },
            )
        },
        CachedDecision::EarlyInfeasible { violated_j, phi } => {
            let c1 = CandView { last_estimates_phi_idx: Some(phi_idx), ..c };
            let c2 = with_cut(c1, violated_j, phi, phi_idx, ladder, assignment, selected);
            cut_outcome(c1.audit_required, c2, violated_j, phi_idx, len, StepResult::Cached, None)
        },
        CachedDecision::Truth { phi } => (
            CandView { status: CandidateStatus::DoneTruth, ..c },
            StepDecision { paired_sample: paired_hit(c.audit_origin, phi_idx), ..plain(StepResult::Cached, None, false) },
        ),
        CachedDecision::RejectedCheap => (
            CandView { status: CandidateStatus::DoneRejectedCheap, ..c },
            plain(StepResult::Cached, None, false),
        ),
        CachedDecision::RejectedInvalidEval => (
            CandView { status: CandidateStatus::DoneRejectedInvalidEval, ..c },
            plain(StepResult::Cached, None, false),
        ),
    }
}

/// How a freshly evaluated step moves the candidate.
pub open spec fn fresh_step(c: CandView, phi_idx: u32, phi: Phi, ladder: Seq<Phi>, assignment: Seq<usize>, gate: PruneGate, selected: bool, f: FreshStep) -> (CandView, StepDecision) {
    let len = ladder.len() as int;
    if !c.cheap_checked && f.cheap == Some(CheapGate::InvalidInput) {
        (
            CandView { cheap_checked: true, status: CandidateStatus::DoneRejectedInvalidEval, ..c },
            StepDecision { invalid_reject: true, ..plain(StepResult::RejectedInvalidEval, Some(CacheTag::Cheap), false) },
        )
    } else {
        let c1 = if !c.cheap_checked {
            CandView { cheap_checked: true, cheap_ok: f.cheap == Some(CheapGate::Checked(true)), ..c }
        } else {
            c
        };
        if !c1.cheap_ok {
            (
                CandView { status: CandidateStatus::DoneRejectedCheap, ..c1 },
                StepDecision { cheap_reject: true, ..plain(StepResult::RejectedCheap, Some(CacheTag::Cheap), false) },
            )
        } else {
            let c2 = CandView { last_estimates_phi_idx: Some(phi_idx), ..c1 };
            if phi_idx + 1 == len {
                (
                    CandView { status: CandidateStatus::DoneTruth, ..c2 },
                    StepDecision {
                        paired_sample: paired_hit(c2.audit_origin, phi_idx),
                        ..plain(StepResult::Truth, Some(CacheTag::Truth), true)
                    },
                )
            } else if f.early_infeasible is Some && cut_allowed(phi_idx, f.early_infeasible->0, assignment, len) {
                let j = f.early_infeasible->0;
                let c3 = with_cut(c2, j, phi, phi_idx, ladder, assignment, selected);
                cut_outcome(c2.audit_required, c3, j, phi_idx, len, StepResult::EarlyInfeasible { violated_j: j }, Some(CacheTag::Partial))
            } else if f.prune_bound_hit && pruning_allowed(phi_idx as int, ladder, c2.audit_required, gate) {
                (
                    CandView { status: CandidateStatus::DoneStoppedPartial { at_phi_idx: phi_idx }, ..c2 },
                    plain(StepResult::Partial, Some(CacheTag::Partial), true),
                )
            } else {
                let next = if c2.audit_required { audit_target(c2.audit_origin, phi_idx, len) } else { (phi_idx + 1) as u32 };
                (
                    CandView { next_phi_idx: next, status: CandidateStatus::Ready, ..c2 },
                    StepDecision {
                        result: StepResult::Partial,
                        store: Some(CacheTag::Partial),
                        audited: c2.audit_required,
                        audit_of: audit_of_view(c2.audit_origin),
                        paired_sample: paired_hit(c2.audit_origin, phi_idx),
                        keep_estimates: true,
                        keep_cut_estimates: false,
                        invalid_reject: false,
                        cheap_reject: false,
                    },
                )
            }
        }
    }
}

/// The step rule: how one completed step at ladder index `phi_idx` (fidelity `phi`)
/// moves a candidate, and what the engine reports and records for it.
pub open spec fn step_spec(c: CandView, phi_idx: u32, phi: Phi, ladder: Seq<Phi>, assignment: Seq<usize>, gate: PruneGate, selected: bool, input: StepInput) -> (CandView, StepDecision) {
    match input {
        StepInput::Cached(cd) => cached_step(c, phi_idx, ladder, assignment, selected, cd),
        StepInput::Fresh(f) => fresh_step(c, phi_idx, phi, ladder, assignment, gate, selected, f),
    }
}


// ----------------------------
// Statistics
// ----------------------------

/// Run statistics.
#[derive(Clone, Copy, Debug, Default, PartialEq, Eq, Structural)]
pub struct EngineStats {
    pub truth_evals: u64,
    pub truth_decision_cache_hits: u64,
    pub truth_eval_cache_hits: u64,
    pub partial_steps: u64,
    pub partial_decision_cache_hits: u64,
    pub partial_eval_cache_hits: u64,
    pub cheap_rejects: u64,
    pub invalid_eval_rejects: u64,
}

impl EngineStats {
    /// Every counter can still be incremented.
    pub open spec fn has_room(&self) -> bool {
        &&& self.truth_evals < u64::MAX
        &&& self.truth_decision_cache_hits < u64::MAX
        &&& self.truth_eval_cache_hits < u64::MAX
        &&& self.partial_steps < u64::MAX
        &&& self.partial_decision_cache_hits < u64::MAX
        &&& self.partial_eval_cache_hits < u64::MAX
        &&& self.cheap_rejects < u64::MAX
        &&& self.invalid_eval_rejects < u64::MAX
    }

    /// Whether every counter can still be incremented.
    pub fn room(&self) -> (r: bool)
        ensures
            r == self.has_room(),
    {
        self.truth_evals < u64::MAX && self.truth_decision_cache_hits < u64::MAX
            && self.truth_eval_cache_hits < u64::MAX && self.partial_steps < u64::MAX
            && self.partial_decision_cache_hits < u64::MAX && self.partial_eval_cache_hits < u64::MAX
            && self.cheap_rejects < u64::MAX && self.invalid_eval_rejects < u64::MAX
    }
}

// ----------------------------
// Candidate operations
// ----------------------------

/// The audit reference of an origin.
pub fn audit_of_from_origin(origin: &CandidateAuditOrigin) -> (r: AuditOf)
    ensures
        audit_of_view(Some(origin@)) == Some(r),
{
    AuditOf { violated_j: origin.violated_j, phi_at_cut: origin.phi_at_cut, phi_idx_at_cut: origin.phi_idx_at_cut }
}

fn origin_ref(o: &Option<CandidateAuditOrigin>) -> (r: Option<&CandidateAuditOrigin>)
    ensures
        match r { Some(v) => Some(v@), None => None } == crate::types::origin_view(*o),
{
    match o {
        Some(v) => Some(v),
        None => None,
    }
}

fn audit_of_opt(o: &Option<CandidateAuditOrigin>) -> (r: Option<AuditOf>)
    ensures
        r == audit_of_view(crate::types::origin_view(*o)),
{
    match o {
        Some(v) => Some(audit_of_from_origin(v)),
        None => None,
    }
}

fn paired_hit_exec(o: &Option<CandidateAuditOrigin>, phi_idx: u32) -> (r: bool)
    ensures
        r == paired_hit(crate::types::origin_view(*o), phi_idx),
{
    is_paired_checkpoint(origin_ref(o), phi_idx)
}

impl CandidateStageState {
    /// A freshly proposed candidate, ready for its first ladder step.
    pub fn new_ready(id: CandidateId, x: XMesh, created_epoch: u64, policy_rev: PolicyRev, incumbent_id: u64) -> (r: Self)
        ensures
            r.id == id,
            r@.x == x@,
            r.created_epoch == created_epoch,
            r.next_phi_idx == 0,
            r.last_estimates_phi_idx is None,
            !r.audit_required,
            r.audit_origin is None,
            !r.cheap_checked,
            !r.cheap_ok,
            r.submitted_policy_rev == policy_rev,
            r.submitted_incumbent_id == incumbent_id,
            r.status == CandidateStatus::Ready,
    {
        CandidateStageState {
            id,
            x,
            created_epoch,
            next_phi_idx: 0,
            last_estimates_phi_idx: None,
            audit_required: false,
            audit_origin: None,
            cheap_checked: false,
            cheap_ok: false,
            submitted_policy_rev: policy_rev,
            submitted_incumbent_id: incumbent_id,
            status: CandidateStatus::Ready,
        }
    }

    /// Whether a ready candidate starts its ladder or resumes it.
    pub fn ready_kind(&self) -> (r: ReadyKind)
        ensures
            r == (if self.next_phi_idx == 0 { ReadyKind::New } else { ReadyKind::Resume }),
    {
        if self.next_phi_idx == 0 { ReadyKind::New } else { ReadyKind::Resume }
    }

    /// Apply the state transition implied by a result at ladder index `phi_idx`.
    pub fn apply_state_transition_from_result(&mut self, phi_idx: u32, result: CachedDecision, ladder_len: usize)
        requires
            phi_idx < u32::MAX,
        ensures
            final(self)@ == result_transition(old(self)@, phi_idx, result, ladder_len as int),
    {
        match result {
            CachedDecision::RejectedCheap => {
                self.status = CandidateStatus::DoneRejectedCheap;
            },
            CachedDecision::RejectedInvalidEval => {
                self.status = CandidateStatus::DoneRejectedInvalidEval;
            },
            CachedDecision::EarlyInfeasible { violated_j, .. } => {
                if self.audit_required {
                    self.next_phi_idx = next_audit_target_idx(origin_ref(&self.audit_origin), phi_idx, ladder_len);
                    self.status = CandidateStatus::Ready;
                } else {
                    self.status = CandidateStatus::DoneEarlyInfeasible { violated_j, at_phi_idx: phi_idx };
                }
            },
            CachedDecision::Partial { .. } => {
                if (phi_idx as usize) + 1 >= ladder_len {
                    self.status = CandidateStatus::DoneTruth;
                } else if self.audit_required {
                    self.next_phi_idx = next_audit_target_idx(origin_ref(&self.audit_origin), phi_idx, ladder_len);
                    self.status = CandidateStatus::Ready;
                } else {
                    self.next_phi_idx = phi_idx + 1;
                    self.status = CandidateStatus::Ready;
                }
            },
            CachedDecision::Truth { .. } => {
                self.status = CandidateStatus::DoneTruth;
            },
        }
    }

    fn note_cut(&mut self, j: usize, phi_cut: Phi, phi_idx: u32, ladder: &[Phi], assignment: &[usize], selected: bool)
        requires
            ladder@.len() <= u32::MAX,
            phi_idx < ladder@.len(),
        ensures
            final(self)@ == with_cut(old(self)@, j, phi_cut, phi_idx, ladder@, assignment@, selected),
    {
        let aj: usize = if j < assignment.len() { assignment[j] } else { ladder.len() };
        let level: usize = (phi_idx as usize) + 1;
        if !self.audit_required && level >= aj && selected {
            self.audit_required = true;
            self.audit_origin = Some(CandidateAuditOrigin {
                violated_j: j,
                phi_at_cut: phi_cut,
                phi_idx_at_cut: phi_idx,
                paired_phi_indices: collect_paired_phi_indices(ladder, phi_idx),
            });
        }
    }

    fn finish_cut(&mut self, was_audited: bool, j: usize, phi_idx: u32, ladder_len: usize, result: StepResult, store: Option<CacheTag>) -> (d: StepDecision)
        ensures
            (final(self)@, d) == cut_outcome(was_audited, old(self)@, j, phi_idx, ladder_len as int, result, store),
    {
        if self.audit_required {
            let audit_of = audit_of_opt(&self.audit_origin);
            let paired = paired_hit_exec(&self.audit_origin, phi_idx);
            self.next_phi_idx = next_audit_target_idx(origin_ref(&self.audit_origin), phi_idx, ladder_len);
            self.status = CandidateStatus::Ready;
            StepDecision {
                result,
                store,
                audited: true,
                audit_of,
                paired_sample: paired,
                keep_estimates: true,
                keep_cut_estimates: !was_audited,
                invalid_reject: false,
                cheap_reject: false,
            }
        } else {
            self.status = CandidateStatus::DoneEarlyInfeasible { violated_j: j, at_phi_idx: phi_idx };
            StepDecision {
                result,
                store,
                audited: false,
                audit_of: None,
                paired_sample: false,
                keep_estimates: true,
                keep_cut_estimates: false,
                invalid_reject: false,
                cheap_reject: false,
            }
        }
    }

    /// Convert one completed step at ladder index `phi_idx` (fidelity `phi`) into a
    /// decision and update the candidate's state accordingly.
    ///
    /// `audit_selected` is the audit policy's (deterministic) verdict for this candidate
    /// at this step; it matters only when an allowed early cut is seen on a candidate that
    /// is not yet audited. Rejects are counted in `stats`.
    pub fn materialize_step(
        &mut self,
        phi_idx: u32,
        phi: Phi,
        ladder: &[Phi],
        assignment: &[usize],
        gate: &PruneGate,
        audit_selected: bool,
        input: StepInput,
        stats: &mut EngineStats,
    ) -> (d: StepDecision)
        requires
            phi_idx < ladder@.len(),
            ladder@.len() <= u32::MAX,
            old(stats).has_room(),
            match input {
                StepInput::Fresh(f) => !old(self).cheap_checked ==> f.cheap is Some,
                StepInput::Cached(_) => true,
            },
        ensures
            (final(self)@, d) == step_spec(old(self)@, phi_idx, phi, ladder@, assignment@, *gate, audit_selected, input),
            *final(stats) == (EngineStats {
                invalid_eval_rejects: (old(stats).invalid_eval_rejects + if d.invalid_reject { 1int } else { 0int }) as u64,
                cheap_rejects: (old(stats).cheap_rejects + if d.cheap_reject { 1int } else { 0int }) as u64,
                ..*old(stats)
            }),
    {
        let n = ladder.len();
        match input {
            StepInput::Cached(cd) => {
                match cd {
                    CachedDecision::Partial { .. } => {
                        let audited = self.audit_required;
                        let audit_of = audit_of_opt(&self.audit_origin);
                        let paired = paired_hit_exec(&self.audit_origin, phi_idx);
                        self.last_estimates_phi_idx = Some(phi_idx);
                        self.apply_state_transition_from_result(phi_idx, cd, n);
                        StepDecision {
                            result: StepResult::Cached,
                            store: None,
                            audited,
                            audit_of,
                            paired_sample: paired,
                            keep_estimates: true,
                            keep_cut_estimates: false,
                            invalid_reject: false,
                            cheap_reject: false,
                        }
                    },
                    CachedDecision::EarlyInfeasible { violated_j, phi: cut_phi } => {
                        self.last_estimates_phi_idx = Some(phi_idx);
                        let was = self.audit_required;
                        self.note_cut(violated_j, cut_phi, phi_idx, ladder, assignment, audit_selected);
                        self.finish_cut(was, violated_j, phi_idx, n, StepResult::Cached, None)
                    },
                    CachedDecision::Truth { .. } => {
                        let paired = paired_hit_exec(&self.audit_origin, phi_idx);
                        self.status = CandidateStatus::DoneTruth;
                        StepDecision {
                            result: StepResult::Cached,
                            store: None,
                            audited: false,
                            audit_of: None,
                            paired_sample: paired,
                            keep_estimates: false,
                            keep_cut_estimates: false,
                            invalid_reject: false,
                            cheap_reject: false,
                        }
                    },
                    CachedDecision::RejectedCheap => {
                        self.status = CandidateStatus::DoneRejectedCheap;
                        StepDecision {
                            result: StepResult::Cached,
                            store: None,
                            audited: false,
                            audit_of: None,
                            paired_sample: false,
                            keep_estimates: false,
                            keep_cut_estimates: false,
                            invalid_reject: false,
                            cheap_reject: false,
                        }
                    },
                    CachedDecision::RejectedInvalidEval => {
                        self.status = CandidateStatus::DoneRejectedInvalidEval;
                        StepDecision {
                            result: StepResult::Cached,
                            store: None,
                            audited: false,
                            audit_of: None,
                            paired_sample: false,
                            keep_estimates: false,
                            keep_cut_estimates: false,
                            invalid_reject: false,
                            cheap_reject: false,
                        }
                    },
                }
            },
            StepInput::Fresh(f) => {
                if !self.cheap_checked {
                    self.cheap_checked = true;
                    match f.cheap {
                        Some(CheapGate::InvalidInput) => {
                            stats.invalid_eval_rejects = stats.invalid_eval_rejects + 1;
                            self.status = CandidateStatus::DoneRejectedInvalidEval;
                            return StepDecision {
                                result: StepResult::RejectedInvalidEval,
                                store: Some(CacheTag::Cheap),
                                audited: false,
                                audit_of: None,
                                paired_sample: false,
                                keep_estimates: false,
                                keep_cut_estimates: false,
                                invalid_reject: true,
                                cheap_reject: false,
                            };
                        },
                        Some(CheapGate::Checked(ok)) => {
                            self.cheap_ok = ok;
                        },
                        None => {
                            self.cheap_ok = false;
                        },
                    }
                }
                if !self.cheap_ok {
                    stats.cheap_rejects = stats.cheap_rejects + 1;
                    self.status = CandidateStatus::DoneRejectedCheap;
                    return StepDecision {
                        result: StepResult::RejectedCheap,
                        store: Some(CacheTag::Cheap),
                        audited: false,
                        audit_of: None,
                        paired_sample: false,
                        keep_estimates: false,
                        keep_cut_estimates: false,
                        invalid_reject: false,
                        cheap_reject: true,
                    };
                }
                self.last_estimates_phi_idx = Some(phi_idx);
                if (phi_idx as usize) + 1 == n {
                    let paired = paired_hit_exec(&self.audit_origin, phi_idx);
                    self.status = CandidateStatus::DoneTruth;
                    return StepDecision {
                        result: StepResult::Truth,
                        store: Some(CacheTag::Truth),
                        audited: false,
                        audit_of: None,
                        paired_sample: paired,
                        keep_estimates: true,
                        keep_cut_estimates: false,
                        invalid_reject: false,
                        cheap_reject: false,
                    };
                }
                if let Some(j) = f.early_infeasible {
                    let aj: usize = if j < assignment.len() { assignment[j] } else { n };
                    let level: usize = (phi_idx as usize) + 1;
                    if level >= aj {
                        let was = self.audit_required;
                        self.note_cut(j, phi, phi_idx, ladder, assignment, audit_selected);
                        return self.finish_cut(was, j, phi_idx, n, StepResult::EarlyInfeasible { violated_j: j }, Some(CacheTag::Partial));
                    }
                }
                if f.prune_bound_hit && objective_pruning_allowed(phi_idx as usize, ladder, self.audit_required, gate) {
                    self.status = CandidateStatus::DoneStoppedPartial { at_phi_idx: phi_idx };
                    return StepDecision {
                        result: StepResult::Partial,
                        store: Some(CacheTag::Partial),
                        audited: false,
                        audit_of: None,
                        paired_sample: false,
                        keep_estimates: true,
                        keep_cut_estimates: false,
                        invalid_reject: false,
                        cheap_reject: false,
                    };
                }
                let audited = self.audit_required;
                let audit_of = audit_of_opt(&self.audit_origin);
                let paired = paired_hit_exec(&self.audit_origin, phi_idx);
                if self.audit_required {
                    self.next_phi_idx = next_audit_target_idx(origin_ref(&self.audit_origin), phi_idx, n);
                } else {
                    self.next_phi_idx = phi_idx + 1;
                }
                self.status = CandidateStatus::Ready;
                StepDecision {
                    result: StepResult::Partial,
                    store: Some(CacheTag::Partial),
                    audited,
                    audit_of,
                    paired_sample: paired,
                    keep_estimates: true,
                    keep_cut_estimates: false,
                    invalid_reject: false,
                    cheap_reject: false,
                }
            },
        }
    }
}


// ----------------------------
// Laws of the step rule
// ----------------------------

/// A candidate state is well formed for a ladder of length `len`: it carries an audit
/// origin exactly when it is audit-required, and the origin's checkpoints lie in the ladder.
pub open spec fn cand_wf(c: CandView, len: int) -> bool {
    &&& c.audit_required <==> c.audit_origin is Some
    &&& match c.audit_origin {
        Some(o) => forall|k: int| 0 <= k < o.paired_phi_indices.len() ==> #[trigger] o.paired_phi_indices[k] < len,
        None => true,
    }
}

proof fn lemma_new_origin_in_ladder(j: usize, phi_cut: Phi, phi_idx: u32, ladder: Seq<Phi>)
    requires
        ladder.len() <= u32::MAX,
    ensures
        forall|k: int| 0 <= k < new_origin(j, phi_cut, phi_idx, ladder).paired_phi_indices.len() ==>
            #[trigger] new_origin(j, phi_cut, phi_idx, ladder).paired_phi_indices[k] < ladder.len(),
{
    crate::ladder::lemma_paired_indices_exact(ladder, phi_idx as int);
}

/// Three-stage flow: a freshly evaluated step reports a partial, early-infeasible or
/// truth result only for a candidate that has passed the cheap constraints.
pub proof fn lemma_cheap_gate_precedes_evaluation(c: CandView, phi_idx: u32, phi: Phi, ladder: Seq<Phi>, assignment: Seq<usize>, gate: PruneGate, selected: bool, f: FreshStep)
    ensures
        ({
            let (c1, d) = fresh_step(c, phi_idx, phi, ladder, assignment, gate, selected, f);
            (d.result is Partial || d.result is EarlyInfeasible || d.result is Truth) ==> c1.cheap_checked && c1.cheap_ok
        }),
{
}

/// An audit path is followed step by step: for an audit-required candidate that has
/// passed the cheap constraints, at a step before the last, under a gate that exempts
/// audits from objective pruning, the audit and its origin stay; a fresh step reports a
/// partial or early-infeasible result; and every partial or early-infeasible step
/// (fresh or from the decision cache) is reported as audited and leaves the candidate
/// ready at the next audit target.
pub proof fn lemma_audit_path_followed(c: CandView, phi_idx: u32, phi: Phi, ladder: Seq<Phi>, assignment: Seq<usize>, gate: PruneGate, selected: bool, input: StepInput)
    requires
        c.audit_required,
        c.cheap_checked,
        c.cheap_ok,
        gate.disable_for_audit,
        phi_idx + 1 < ladder.len(),
    ensures
        ({
            let (r, d) = step_spec(c, phi_idx, phi, ladder, assignment, gate, selected, input);
            let partial_like = match input {
                StepInput::Fresh(_) => d.result is Partial || d.result is EarlyInfeasible,
                StepInput::Cached(cd) => cd is Partial || cd is EarlyInfeasible,
            };
            &&& r.audit_required && r.audit_origin == c.audit_origin
            &&& (input is Fresh ==> partial_like)
            &&& partial_like ==> {
                &&& d.audited
                &&& r.status == CandidateStatus::Ready
                &&& r.next_phi_idx == audit_target(c.audit_origin, phi_idx, ladder.len() as int)
            }
        }),
{
}

/// An audit is never cut short: a candidate that is audit-required after a step is
/// never finished as early infeasible by it (its audit continues towards the truth step).
pub proof fn lemma_audit_never_finished_early(c: CandView, phi_idx: u32, phi: Phi, ladder: Seq<Phi>, assignment: Seq<usize>, gate: PruneGate, selected: bool, input: StepInput)
    ensures
        ({
            let r = step_spec(c, phi_idx, phi, ladder, assignment, gate, selected, input).0;
            r.audit_required ==> !(r.status is DoneEarlyInfeasible)
        }),
{
}

/// Audit selection is sticky: once a candidate is audit-required it stays so, and its
/// audit origin never changes. The candidate's identity, point, epoch and submission
/// snapshot are never changed by a step.
pub proof fn lemma_step_audit_sticky(c: CandView, phi_idx: u32, phi: Phi, ladder: Seq<Phi>, assignment: Seq<usize>, gate: PruneGate, selected: bool, input: StepInput)
    ensures
        ({
            let r = step_spec(c, phi_idx, phi, ladder, assignment, gate, selected, input).0;
            &&& c.audit_required ==> r.audit_required && r.audit_origin == c.audit_origin
            &&& !c.audit_required && r.audit_required ==> r.audit_origin is Some
            &&& r.id == c.id
            &&& r.x == c.x
            &&& r.created_epoch == c.created_epoch
            &&& r.submitted_policy_rev == c.submitted_policy_rev
            &&& r.submitted_incumbent_id == c.submitted_incumbent_id
        }),
{
}

/// A step always resolves the in-flight state: the candidate is either ready for its
/// next step or done.
pub proof fn lemma_step_resolves(c: CandView, phi_idx: u32, phi: Phi, ladder: Seq<Phi>, assignment: Seq<usize>, gate: PruneGate, selected: bool, input: StepInput)
    ensures
        !(step_spec(c, phi_idx, phi, ladder, assignment, gate, selected, input).0.status is InFlight),
{
}

/// Well-formedness is kept by every step; a candidate left ready points at a later step
/// that is inside the ladder, so ladder traversal always makes progress.
pub proof fn lemma_step_ready_progress(c: CandView, phi_idx: u32, phi: Phi, ladder: Seq<Phi>, assignment: Seq<usize>, gate: PruneGate, selected: bool, input: StepInput)
    requires
        phi_idx < ladder.len(),
        ladder.len() <= u32::MAX,
        cand_wf(c, ladder.len() as int),
    ensures
        ({
            let r = step_spec(c, phi_idx, phi, ladder, assignment, gate, selected, input).0;
            &&& cand_wf(r, ladder.len() as int)
            &&& r.status is Ready ==> r.next_phi_idx < ladder.len()
            &&& r.status is Ready && phi_idx + 1 < ladder.len() ==> r.next_phi_idx > phi_idx
        }),
{
    let len = ladder.len() as int;
    lemma_new_origin_in_ladder(0, phi, phi_idx, ladder);
    assert forall|j: usize, pc: Phi| #![trigger new_origin(j, pc, phi_idx, ladder)]
        forall|k: int| 0 <= k < new_origin(j, pc, phi_idx, ladder).paired_phi_indices.len() ==>
            #[trigger] new_origin(j, pc, phi_idx, ladder).paired_phi_indices[k] < len by {
        lemma_new_origin_in_ladder(j, pc, phi_idx, ladder);
    }
    let r = step_spec(c, phi_idx, phi, ladder, assignment, gate, selected, input).0;
    if r.status is Ready && r.audit_required {
        crate::ladder::lemma_first_above(r.audit_origin->0.paired_phi_indices, phi_idx);
        if phi_idx + 1 < len {
            crate::ladder::lemma_audit_target_advances(r.audit_origin, phi_idx, len);
        }
    }
}

/// A fresh step reports a truth result exactly at the last ladder index, and never
/// reports an early-infeasible result there.
pub proof fn lemma_truth_only_at_last_step(c: CandView, phi_idx: u32, phi: Phi, ladder: Seq<Phi>, assignment: Seq<usize>, gate: PruneGate, selected: bool, f: FreshStep)
    ensures
        ({
            let d = step_spec(c, phi_idx, phi, ladder, assignment, gate, selected, StepInput::Fresh(f)).1;
            &&& d.result == StepResult::Truth ==> phi_idx + 1 == ladder.len()
            &&& d.result is EarlyInfeasible ==> phi_idx + 1 != ladder.len()
            &&& (c.cheap_checked && c.cheap_ok && phi_idx + 1 == ladder.len()) ==> d.result == StepResult::Truth
        }),
{
}

/// The DIDS assignment `a_j` is the lowest 1-based ladder level at which constraint `j`
/// may be cut early. For a fresh step before the last one, on a candidate that passes
/// the cheap constraints, whose margin policy declares constraint `j` infeasible: once
/// the level `phi_idx + 1` reaches `a_j` (equality included) the step is an early
/// infeasible cut of `j`, whatever the objective bound says. A candidate not audited
/// before is then finished as early infeasible at this step unless the audit policy
/// selects it, in which case it becomes audit-required with an origin recording this
/// cut and stays ready; an audit-required candidate keeps its audit and stays ready.
pub proof fn lemma_fresh_cut_from_assigned_level(c: CandView, phi_idx: u32, phi: Phi, ladder: Seq<Phi>, assignment: Seq<usize>, gate: PruneGate, selected: bool, f: FreshStep, j: usize)
    requires
        if c.cheap_checked { c.cheap_ok } else { f.cheap == Some(CheapGate::Checked(true)) },
        phi_idx + 1 < ladder.len(),
        f.early_infeasible == Some(j),
        j < assignment.len(),
        phi_idx + 1 >= assignment[j as int],
    ensures
        ({
            let (r, d) = step_spec(c, phi_idx, phi, ladder, assignment, gate, selected, StepInput::Fresh(f));
            &&& d.result == (StepResult::EarlyInfeasible { violated_j: j })
            &&& d.store == Some(CacheTag::Partial)
            &&& (!c.audit_required && !selected) ==> {
                &&& r.status == (CandidateStatus::DoneEarlyInfeasible { violated_j: j, at_phi_idx: phi_idx })
                &&& !r.audit_required
                &&& !d.audited
            }
            &&& (!c.audit_required && selected) ==> {
                &&& r.audit_required
                &&& r.audit_origin is Some
                &&& r.audit_origin->0.violated_j == j
                &&& r.audit_origin->0.phi_at_cut == phi
                &&& r.audit_origin->0.phi_idx_at_cut == phi_idx
                &&& r.status == CandidateStatus::Ready
                &&& d.audited
                &&& d.keep_cut_estimates
            }
            &&& c.audit_required ==> {
                &&& r.audit_required
                &&& r.audit_origin == c.audit_origin
                &&& r.status == CandidateStatus::Ready
                &&& d.audited
            }
        }),
{
}

/// Below the assigned level no early cut happens: for a fresh step before the last one,
/// on a candidate that passes the cheap constraints, a constraint `j` declared
/// infeasible at a level `phi_idx + 1` below `a_j` (or with no `a_j` at all, which
/// counts as the last level) does not cut: the step is partial, it is never audited
/// because of this constraint, and the candidate's audit state is unchanged.
pub proof fn lemma_fresh_no_cut_below_assigned_level(c: CandView, phi_idx: u32, phi: Phi, ladder: Seq<Phi>, assignment: Seq<usize>, gate: PruneGate, selected: bool, f: FreshStep, j: usize)
    requires
        if c.cheap_checked { c.cheap_ok } else { f.cheap == Some(CheapGate::Checked(true)) },
        phi_idx + 1 < ladder.len(),
        f.early_infeasible == Some(j),
        j < assignment.len() ==> phi_idx + 1 < assignment[j as int],
    ensures
        ({
            let (r, d) = step_spec(c, phi_idx, phi, ladder, assignment, gate, selected, StepInput::Fresh(f));
            &&& d.result == StepResult::Partial
            &&& r.audit_required == c.audit_required
            &&& r.audit_origin == c.audit_origin
            &&& !(r.status is DoneEarlyInfeasible)
        }),
{
}

/// The same level rule selects audits for early cuts served from the decision cache: a
/// candidate not yet audited whose cached early-infeasible decision for `j` is seen at
/// a level reaching `a_j` becomes audit-required (with an origin for this cut) when the
/// audit policy selects it; below `a_j`, or when not selected, it is finished as early
/// infeasible at this step.
pub proof fn lemma_cached_cut_audit_selection(c: CandView, phi_idx: u32, phi: Phi, ladder: Seq<Phi>, assignment: Seq<usize>, gate: PruneGate, selected: bool, j: usize, cut_phi: Phi)
    requires
        !c.audit_required,
        j < assignment.len(),
    ensures
        ({
            let (r, d) = step_spec(c, phi_idx, phi, ladder, assignment, gate, selected,
                StepInput::Cached(CachedDecision::EarlyInfeasible { violated_j: j, phi: cut_phi }));
            &&& d.result == StepResult::Cached
            &&& (selected && phi_idx + 1 >= assignment[j as int]) ==> {
                &&& r.audit_required
                &&& r.audit_origin is Some
                &&& r.audit_origin->0.violated_j == j
                &&& r.audit_origin->0.phi_at_cut == cut_phi
                &&& r.audit_origin->0.phi_idx_at_cut == phi_idx
                &&& r.status == CandidateStatus::Ready
                &&& d.audited
            }
            &&& (!selected || phi_idx + 1 < assignment[j as int]) ==> {
                &&& !r.audit_required
                &&& r.status == (CandidateStatus::DoneEarlyInfeasible { violated_j: j, at_phi_idx: phi_idx })
                &&& !d.audited
            }
        }),
{
}

/// When no early cut applies to a fresh step before the last one, on a candidate that
/// passes the cheap constraints, the step is partial and the objective bound decides
/// what follows: if the bound cannot beat the incumbent and the pruning gate allows it
/// here, the candidate stops at this step; otherwise it stays ready for the next step
/// (the next audit target when audit-required, else the following index).
pub proof fn lemma_fresh_partial_stop_or_continue(c: CandView, phi_idx: u32, phi: Phi, ladder: Seq<Phi>, assignment: Seq<usize>, gate: PruneGate, selected: bool, f: FreshStep)
    requires
        if c.cheap_checked { c.cheap_ok } else { f.cheap == Some(CheapGate::Checked(true)) },
        phi_idx + 1 < ladder.len(),
        match f.early_infeasible {
            Some(j) => j < assignment.len() ==> phi_idx + 1 < assignment[j as int],
            None => true,
        },
    ensures
        ({
            let (r, d) = step_spec(c, phi_idx, phi, ladder, assignment, gate, selected, StepInput::Fresh(f));
            &&& d.result == StepResult::Partial
            &&& d.store == Some(CacheTag::Partial)
            &&& d.keep_estimates
            &&& r.last_estimates_phi_idx == Some(phi_idx)
            &&& (f.prune_bound_hit && pruning_allowed(phi_idx as int, ladder, c.audit_required, gate)) ==>
                r.status == (CandidateStatus::DoneStoppedPartial { at_phi_idx: phi_idx })
            &&& !(f.prune_bound_hit && pruning_allowed(phi_idx as int, ladder, c.audit_required, gate)) ==> {
                &&& r.status == CandidateStatus::Ready
                &&& r.next_phi_idx == if c.audit_required {
                    audit_target(c.audit_origin, phi_idx, ladder.len() as int)
                } else {
                    (phi_idx + 1) as u32
                }
                &&& d.audited == c.audit_required
            }
        }),
{
}

/// An audited decision always names the cut it audits, for well-formed candidates.
pub proof fn lemma_audited_names_cut(c: CandView, phi_idx: u32, phi: Phi, ladder: Seq<Phi>, assignment: Seq<usize>, gate: PruneGate, selected: bool, input: StepInput)
    requires
        cand_wf(c, ladder.len() as int),
    ensures
        step_spec(c, phi_idx, phi, ladder, assignment, gate, selected, input).1.audited ==>
            step_spec(c, phi_idx, phi, ladder, assignment, gate, selected, input).1.audit_of is Some,
{
}


// ----------------------------
// Dispatch and statistics
// ----------------------------

impl CandidateStageState {
    /// Dispatch the candidate's next step: a ready candidate whose next index lies in the
    /// ladder becomes in flight at that index, its submission snapshot is taken, and the
    /// work item for the step is returned. Any other candidate is left unchanged.
    pub fn dispatch(&mut self, ladder: &[Phi], env_rev: EnvRev, policy_rev: PolicyRev, incumbent_id: u64) -> (r: Option<WorkItem>)
        ensures
            (old(self).status == CandidateStatus::Ready && (old(self).next_phi_idx as int) < ladder@.len()) ==> {
                &&& r is Some
                &&& final(self)@ == (CandView {
                    status: CandidateStatus::InFlight { phi_idx: old(self).next_phi_idx },
                    submitted_policy_rev: policy_rev,
                    submitted_incumbent_id: incumbent_id,
                    ..old(self)@
                })
                &&& r->0.cand_id == old(self).id
                &&& r->0.x@ == old(self).x@
                &&& r->0.phi_idx == old(self).next_phi_idx
                &&& r->0.phi == ladder@[old(self).next_phi_idx as int]
                &&& r->0.env_rev == env_rev
                &&& r->0.policy_rev == policy_rev
                &&& r->0.incumbent_id == incumbent_id
            },
            !(old(self).status == CandidateStatus::Ready && (old(self).next_phi_idx as int) < ladder@.len()) ==> {
                &&& r is None
                &&& final(self)@ == old(self)@
            },
    {
        let ready = match self.status {
            CandidateStatus::Ready => true,
            _ => false,
        };
        if !ready {
            return None;
        }
        let phi_idx = self.next_phi_idx;
        if (phi_idx as usize) >= ladder.len() {
            return None;
        }
        let phi = ladder[phi_idx as usize];
        self.status = CandidateStatus::InFlight { phi_idx };
        self.submitted_policy_rev = policy_rev;
        self.submitted_incumbent_id = incumbent_id;
        Some(WorkItem {
            cand_id: self.id,
            x: self.x.duplicate(),
            phi_idx,
            phi,
            env_rev,
            policy_rev,
            incumbent_id,
        })
    }
}

/// Statistics after counting one work outcome: an invalid cached decision counts as an
/// invalid-evaluation reject; otherwise a decision-cache hit, an evaluation-cache hit or
/// a computation is counted, on the truth or the partial side by the step's index.
pub open spec fn stats_after(s: EngineStats, phi_idx: u32, cached_invalid: bool, hit_decision_cache: bool, hit_eval_cache: bool, did_compute: bool, ladder_len: int) -> EngineStats {
    let is_truth = phi_idx + 1 == ladder_len;
    if cached_invalid {
        EngineStats { invalid_eval_rejects: (s.invalid_eval_rejects + 1) as u64, ..s }
    } else if hit_decision_cache {
        if is_truth {
            EngineStats { truth_decision_cache_hits: (s.truth_decision_cache_hits + 1) as u64, ..s }
        } else {
            EngineStats { partial_decision_cache_hits: (s.partial_decision_cache_hits + 1) as u64, ..s }
        }
    } else if hit_eval_cache {
        if is_truth {
            EngineStats { truth_eval_cache_hits: (s.truth_eval_cache_hits + 1) as u64, ..s }
        } else {
            EngineStats { partial_eval_cache_hits: (s.partial_eval_cache_hits + 1) as u64, ..s }
        }
    } else if did_compute {
        if is_truth {
            EngineStats { truth_evals: (s.truth_evals + 1) as u64, ..s }
        } else {
            EngineStats { partial_steps: (s.partial_steps + 1) as u64, ..s }
        }
    } else {
        s
    }
}

impl EngineStats {
    /// Count one work outcome (see `stats_after`).
    pub fn update_from_outcome(&mut self, phi_idx: u32, cached_invalid: bool, hit_decision_cache: bool, hit_eval_cache: bool, did_compute: bool, ladder_len: usize)
        requires
            old(self).has_room(),
        ensures
            *final(self) == stats_after(*old(self), phi_idx, cached_invalid, hit_decision_cache, hit_eval_cache, did_compute, ladder_len as int),
    {
        let is_truth = (phi_idx as u64) + 1 == ladder_len as u64;
        if cached_invalid {
            self.invalid_eval_rejects = self.invalid_eval_rejects + 1;
            return;
        }
        if hit_decision_cache {
            if is_truth {
                self.truth_decision_cache_hits = self.truth_decision_cache_hits + 1;
            } else {
                self.partial_decision_cache_hits = self.partial_decision_cache_hits + 1;
            }
            return;
        }
        if hit_eval_cache {
            if is_truth {
                self.truth_eval_cache_hits = self.truth_eval_cache_hits + 1;
            } else {
                self.partial_eval_cache_hits = self.partial_eval_cache_hits + 1;
            }
            return;
        }
        if did_compute {
            if is_truth {
                self.truth_evals = self.truth_evals + 1;
            } else {
                self.partial_steps = self.partial_steps + 1;
            }
        }
    }
}

// ----------------------------
// Executor chunking
// ----------------------------

/// Executor performance knobs; they never affect results.
#[derive(Clone, Copy, Debug, PartialEq, Eq, Structural)]
pub struct ExecutorParams {
    /// Upper bound for how many tasks a worker pulls from the global queue per refill.
    pub chunk_base: usize,
    /// Spin iterations before falling back to a blocking wait.
    pub spin_limit: usize,
}

impl Default for ExecutorParams {
    /// The default knobs: chunks of 32, 2000 spins.
    fn default() -> (r: ExecutorParams)
        ensures
            r.chunk_base == 32,
            r.spin_limit == 2000,
    {
        ExecutorParams { chunk_base: 32, spin_limit: 2000 }
    }
}

/// Clamp a chunk base into `[max(min, 1), max(max, 1)]` (the upper bound wins).
pub open spec fn clamp_chunk(base: int, min: int, max: int) -> int {
    let lo = if min < 1 { 1 } else { min };
    let hi = if max < 1 { 1 } else { max };
    let a = if base < lo { lo } else { base };
    if a > hi { hi } else { a }
}

/// The chunk base a run starts with.
pub fn clamp_chunk_base(base: usize, min: usize, max: usize) -> (r: usize)
    ensures
        r as int == clamp_chunk(base as int, min as int, max as int),
{
    let lo: usize = if min < 1 { 1 } else { min };
    let hi: usize = if max < 1 { 1 } else { max };
    let a: usize = if base < lo { lo } else { base };
    if a > hi { hi } else { a }
}

/// How uneven the costs of a batch were (coefficient of variation below 0.25, between,
/// or above 0.75).
#[derive(Clone, Copy, Debug, PartialEq, Eq, Structural)]
pub enum CostSpread {
    Low,
    Medium,
    High,
}

/// Online chunk tuning: even batches double the chunk (up to the maximum), uneven ones
/// halve it (rounding up, down to the minimum); the result is clamped as at the start.
pub open spec fn tuned_chunk(chunk: int, spread: CostSpread, min: int, max: int) -> int {
    let lo = if min < 1 { 1 } else { min };
    let hi = if max < 1 { 1 } else { max };
    let doubled = if 2 * chunk > usize::MAX { usize::MAX as int } else { 2 * chunk };
    let target = match spread {
        CostSpread::Low => if doubled < hi { doubled } else { hi },
        CostSpread::High => if (chunk + 1) / 2 > lo { (chunk + 1) / 2 } else { lo },
        CostSpread::Medium => chunk,
    };
    clamp_chunk(target, min, max)
}

/// One online tuning step of the executor chunk base.
pub fn tune_chunk_base(chunk: usize, spread: CostSpread, min: usize, max: usize) -> (r: usize)
    ensures
        r as int == tuned_chunk(chunk as int, spread, min as int, max as int),
{
    let lo: usize = if min < 1 { 1 } else { min };
    let hi: usize = if max < 1 { 1 } else { max };
    let doubled: usize = if chunk > usize::MAX / 2 { usize::MAX } else { chunk * 2 };
    let half: usize = chunk / 2 + chunk % 2;
    let target: usize = match spread {
        CostSpread::Low => if doubled < hi { doubled } else { hi },
        CostSpread::High => if half > lo { half } else { lo },
        CostSpread::Medium => chunk,
    };
    clamp_chunk_base(target, min, max)
}

/// Effective chunk for a batch of `n` items on `workers` workers: the base, capped by
/// each worker's share `ceil(n / workers)` so no worker hoards the batch (at least 1).
pub fn effective_chunk(n: usize, workers: usize, chunk_base: usize) -> (r: usize)
    ensures
        ({
            let w = if workers < 1 { 1 } else { workers as int };
            let share = (n as int + w - 1) / w;
            let base = if chunk_base < 1 { 1 } else { chunk_base as int };
            let cap = if share < 1 { 1 } else { share };
            r as int == if base < cap { base } else { cap }
        }),
        r >= 1,
{
    let w: usize = if workers < 1 { 1 } else { workers };
    let q: usize = n / w;
    if n % w != 0 {
        assert(q < usize::MAX) by (nonlinear_arith)
            requires w >= 1, n % w != 0, q == n / w, n <= usize::MAX;
    }
    let share: usize = if n % w == 0 { q } else { q + 1 };
    proof {
        let wi = w as int;
        let ni = n as int;
        assert(share as int == (ni + wi - 1) / wi) by (nonlinear_arith)
            requires wi >= 1, ni >= 0, share as int == ni / wi + if ni % wi == 0 { 0int } else { 1int };
    }
    let base: usize = if chunk_base < 1 { 1 } else { chunk_base };
    let cap: usize = if share < 1 { 1 } else { share };
    if base < cap { base } else { cap }
}

} // verus!
