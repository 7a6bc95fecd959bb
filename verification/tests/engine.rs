use imads::calibrator::AuditOf;
use imads::engine::{
    audit_of_from_origin, clamp_chunk_base, effective_chunk, tune_chunk_base, CachedDecision, CheapGate,
    CostSpread, EngineStats, ExecutorParams, FreshStep, StepInput, StepResult,
};
use imads::ladder::PruneGate;
use imads::types::{
    CacheTag, CandidateAuditOrigin, CandidateId, CandidateStageState, CandidateStatus, EnvRev, Phi, PolicyRev,
    ReadyKind, Smc, Tau, XMesh,
};

fn phi(t: u64, s: u32) -> Phi {
    Phi { tau: Tau(t), smc: Smc(s) }
}

fn ladder() -> Vec<Phi> {
    vec![phi(100, 16), phi(100, 64), phi(10, 64), phi(1, 64)]
}

fn gate() -> PruneGate {
    PruneGate { min_smc_rank: 1, min_level: 1, require_back_half: false, disable_for_audit: true }
}

fn cand() -> CandidateStageState {
    CandidateStageState::new_ready(CandidateId(7), XMesh(vec![1, 2]), 0, PolicyRev(0), 0)
}

fn fresh(cheap: Option<CheapGate>, early: Option<usize>, prune: bool) -> StepInput {
    StepInput::Fresh(FreshStep { cheap, early_infeasible: early, prune_bound_hit: prune })
}

#[test]
fn fresh_partial_step_advances_the_ladder() {
    let mut c = cand();
    let mut stats = EngineStats::default();
    let l = ladder();
    let d = c.materialize_step(0, l[0], &l, &[1], &gate(), false, fresh(Some(CheapGate::Checked(true)), None, false), &mut stats);
    assert_eq!(d.result, StepResult::Partial);
    assert_eq!(d.store, Some(CacheTag::Partial));
    assert!(d.keep_estimates && !d.audited);
    assert_eq!(c.next_phi_idx, 1);
    assert_eq!(c.status, CandidateStatus::Ready);
    assert!(c.cheap_checked && c.cheap_ok);
    assert_eq!(c.last_estimates_phi_idx, Some(0));
    assert_eq!(c.ready_kind(), ReadyKind::Resume);
    assert_eq!(stats, EngineStats::default());
}

#[test]
fn failed_cheap_gate_rejects_and_counts() {
    let mut c = cand();
    let mut stats = EngineStats::default();
    let l = ladder();
    let d = c.materialize_step(0, l[0], &l, &[1], &gate(), false, fresh(Some(CheapGate::Checked(false)), None, false), &mut stats);
    assert_eq!(d.result, StepResult::RejectedCheap);
    assert_eq!(d.store, Some(CacheTag::Cheap));
    assert!(d.cheap_reject);
    assert_eq!(c.status, CandidateStatus::DoneRejectedCheap);
    assert_eq!(stats.cheap_rejects, 1);
}

#[test]
fn invalid_point_is_rejected_as_invalid_evaluation() {
    let mut c = cand();
    let mut stats = EngineStats::default();
    let l = ladder();
    let d = c.materialize_step(0, l[0], &l, &[1], &gate(), false, fresh(Some(CheapGate::InvalidInput), None, false), &mut stats);
    assert_eq!(d.result, StepResult::RejectedInvalidEval);
    assert!(d.invalid_reject);
    assert_eq!(c.status, CandidateStatus::DoneRejectedInvalidEval);
    assert_eq!(stats.invalid_eval_rejects, 1);
    assert_eq!(stats.cheap_rejects, 0);
}

#[test]
fn selected_early_cut_starts_an_audit_path() {
    let mut c = cand();
    let mut stats = EngineStats::default();
    let l = ladder();
    c.materialize_step(0, l[0], &l, &[1], &gate(), false, fresh(Some(CheapGate::Checked(true)), None, false), &mut stats);
    let d = c.materialize_step(1, l[1], &l, &[1], &gate(), true, fresh(None, Some(0), false), &mut stats);
    assert_eq!(d.result, StepResult::EarlyInfeasible { violated_j: 0 });
    assert_eq!(d.store, Some(CacheTag::Partial));
    assert!(d.audited && d.keep_cut_estimates);
    assert_eq!(d.audit_of, Some(AuditOf { violated_j: 0, phi_at_cut: l[1], phi_idx_at_cut: 1 }));
    assert!(c.audit_required);
    let o = c.audit_origin.as_ref().unwrap();
    assert_eq!(o.paired_phi_indices, vec![2, 3]);
    assert_eq!(c.next_phi_idx, 2);
    assert_eq!(c.status, CandidateStatus::Ready);
    // The audit continues at the paired checkpoint, which is reported as such.
    let d = c.materialize_step(2, l[2], &l, &[1], &gate(), false, fresh(None, None, false), &mut stats);
    assert!(d.audited && d.paired_sample && !d.keep_cut_estimates);
    assert_eq!(c.next_phi_idx, 3);
    let d = c.materialize_step(3, l[3], &l, &[1], &gate(), false, fresh(None, None, false), &mut stats);
    assert_eq!(d.result, StepResult::Truth);
    assert_eq!(d.store, Some(CacheTag::Truth));
    assert_eq!(c.status, CandidateStatus::DoneTruth);
    assert!(c.audit_required);
}

#[test]
fn unselected_early_cut_finishes_the_candidate() {
    let mut c = cand();
    let mut stats = EngineStats::default();
    let l = ladder();
    c.materialize_step(0, l[0], &l, &[1], &gate(), false, fresh(Some(CheapGate::Checked(true)), None, false), &mut stats);
    let d = c.materialize_step(1, l[1], &l, &[1], &gate(), false, fresh(None, Some(0), false), &mut stats);
    assert_eq!(d.result, StepResult::EarlyInfeasible { violated_j: 0 });
    assert!(!d.audited);
    assert_eq!(c.status, CandidateStatus::DoneEarlyInfeasible { violated_j: 0, at_phi_idx: 1 });
}

#[test]
fn early_cut_below_assigned_level_is_ignored() {
    let mut c = cand();
    let mut stats = EngineStats::default();
    let l = ladder();
    // a_0 = 3: a cut at level 1 is not allowed, so the step is an ordinary partial.
    let d = c.materialize_step(0, l[0], &l, &[3], &gate(), true, fresh(Some(CheapGate::Checked(true)), Some(0), false), &mut stats);
    assert_eq!(d.result, StepResult::Partial);
    assert_eq!(c.next_phi_idx, 1);
    assert!(!c.audit_required);
}

#[test]
fn objective_bound_stops_the_candidate_when_pruning_is_allowed() {
    let mut c = cand();
    let mut stats = EngineStats::default();
    let l = ladder();
    let d = c.materialize_step(0, l[0], &l, &[1], &gate(), false, fresh(Some(CheapGate::Checked(true)), None, true), &mut stats);
    assert_eq!(d.result, StepResult::Partial);
    assert_eq!(c.status, CandidateStatus::DoneStoppedPartial { at_phi_idx: 0 });
}

#[test]
fn cached_decisions_drive_the_state_transition() {
    let l = ladder();
    let mut stats = EngineStats::default();
    let mut c = cand();
    let d = c.materialize_step(3, l[3], &l, &[1], &gate(), false, StepInput::Cached(CachedDecision::Truth { phi: l[3] }), &mut stats);
    assert_eq!(d.result, StepResult::Cached);
    assert_eq!(c.status, CandidateStatus::DoneTruth);
    let mut c = cand();
    let d = c.materialize_step(1, l[1], &l, &[1], &gate(), false, StepInput::Cached(CachedDecision::Partial { phi: l[1] }), &mut stats);
    assert!(d.keep_estimates);
    assert_eq!(c.next_phi_idx, 2);
    let mut c = cand();
    let d = c.materialize_step(0, l[0], &l, &[1], &gate(), false, StepInput::Cached(CachedDecision::RejectedInvalidEval), &mut stats);
    assert_eq!(d.result, StepResult::Cached);
    assert_eq!(c.status, CandidateStatus::DoneRejectedInvalidEval);
    assert_eq!(stats, EngineStats::default());
}

#[test]
fn dispatch_moves_a_ready_candidate_in_flight_once() {
    let l = ladder();
    let mut c = cand();
    assert_eq!(c.ready_kind(), ReadyKind::New);
    let w = c.dispatch(&l, EnvRev(9), PolicyRev(3), 4).unwrap();
    assert_eq!(w.cand_id, CandidateId(7));
    assert_eq!(w.phi_idx, 0);
    assert_eq!(w.phi, l[0]);
    assert_eq!(w.x.0, vec![1, 2]);
    assert_eq!(c.status, CandidateStatus::InFlight { phi_idx: 0 });
    assert_eq!(c.submitted_policy_rev, PolicyRev(3));
    assert_eq!(c.submitted_incumbent_id, 4);
    assert!(c.dispatch(&l, EnvRev(9), PolicyRev(3), 4).is_none());
}

#[test]
fn stats_count_one_outcome_by_kind() {
    let mut s = EngineStats::default();
    s.update_from_outcome(3, false, false, false, true, 4);
    s.update_from_outcome(0, false, false, false, true, 4);
    s.update_from_outcome(0, false, true, false, false, 4);
    s.update_from_outcome(3, false, false, true, false, 4);
    s.update_from_outcome(1, true, true, true, true, 4);
    s.update_from_outcome(1, false, false, false, false, 4);
    assert_eq!(s.truth_evals, 1);
    assert_eq!(s.partial_steps, 1);
    assert_eq!(s.partial_decision_cache_hits, 1);
    assert_eq!(s.truth_eval_cache_hits, 1);
    assert_eq!(s.invalid_eval_rejects, 1);
    assert_eq!(s.truth_decision_cache_hits, 0);
    assert!(s.room());
}

#[test]
fn audit_reference_copies_the_origin() {
    let o = CandidateAuditOrigin { violated_j: 2, phi_at_cut: phi(10, 8), phi_idx_at_cut: 5, paired_phi_indices: vec![6] };
    assert_eq!(audit_of_from_origin(&o), AuditOf { violated_j: 2, phi_at_cut: phi(10, 8), phi_idx_at_cut: 5 });
}

#[test]
fn executor_chunking_rules() {
    assert_eq!(ExecutorParams::default(), ExecutorParams { chunk_base: 32, spin_limit: 2000 });
    assert_eq!(clamp_chunk_base(32, 1, 256), 32);
    assert_eq!(clamp_chunk_base(0, 0, 0), 1);
    assert_eq!(clamp_chunk_base(500, 4, 256), 256);
    assert_eq!(clamp_chunk_base(2, 4, 256), 4);
    assert_eq!(tune_chunk_base(32, CostSpread::Low, 1, 256), 64);
    assert_eq!(tune_chunk_base(200, CostSpread::Low, 1, 256), 256);
    assert_eq!(tune_chunk_base(33, CostSpread::High, 1, 256), 17);
    assert_eq!(tune_chunk_base(3, CostSpread::High, 4, 256), 4);
    assert_eq!(tune_chunk_base(33, CostSpread::Medium, 1, 256), 33);
    assert_eq!(effective_chunk(10, 3, 32), 4);
    assert_eq!(effective_chunk(9, 3, 2), 2);
    assert_eq!(effective_chunk(0, 0, 0), 1);
}
