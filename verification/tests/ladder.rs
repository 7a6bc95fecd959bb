use imads::ladder::{
    collect_paired_phi_indices, default_smc_levels, default_tau_levels, is_paired_checkpoint,
    next_audit_target_idx, objective_pruning_allowed, resolve_ladder_levels, PruneGate,
    StaircaseLadder,
};
use imads::types::{CandidateAuditOrigin, Phi, Smc, Tau};

fn phi(t: u64, s: u32) -> Phi {
    Phi { tau: Tau(t), smc: Smc(s) }
}

#[test]
fn objective_pruning_gate_is_ladder_smc_aware_regression() {
    let ladder = vec![phi(100, 8), phi(100, 32), phi(10, 32), phi(1, 128)];

    let mut gate = PruneGate {
        min_smc_rank: 2,
        min_level: 2,
        require_back_half: false,
        disable_for_audit: true,
    };

    assert!(!objective_pruning_allowed(0, &ladder, false, &gate));
    assert!(objective_pruning_allowed(1, &ladder, false, &gate));
    assert!(objective_pruning_allowed(3, &ladder, false, &gate));
    assert!(!objective_pruning_allowed(1, &ladder, true, &gate));

    gate.require_back_half = true;
    assert!(!objective_pruning_allowed(1, &ladder, false, &gate));
    assert!(objective_pruning_allowed(3, &ladder, false, &gate));
}

#[test]
fn objective_pruning_rejects_out_of_ladder_indices() {
    let ladder = vec![phi(10, 8)];
    let gate = PruneGate { min_smc_rank: 1, min_level: 1, require_back_half: false, disable_for_audit: false };
    assert!(objective_pruning_allowed(0, &ladder, false, &gate));
    assert!(!objective_pruning_allowed(1, &ladder, false, &gate));
    assert!(!objective_pruning_allowed(0, &[], false, &gate));
    // Audit-required candidates are pruned unless audits are exempted.
    assert!(objective_pruning_allowed(0, &ladder, true, &gate));
}

#[test]
fn default_levels_scale_with_dimension() {
    assert_eq!(default_tau_levels(10), vec![Tau(100), Tau(10), Tau(1)]);
    assert_eq!(default_tau_levels(64), vec![Tau(1000), Tau(100), Tau(10), Tau(1)]);
    assert_eq!(default_smc_levels(0), vec![Smc(8), Smc(32), Smc(128)]);
    assert_eq!(default_smc_levels(8), vec![Smc(8), Smc(32), Smc(128)]);
    assert_eq!(default_smc_levels(10), vec![Smc(16), Smc(64), Smc(256)]);
    assert_eq!(default_smc_levels(33), vec![Smc(32), Smc(128), Smc(512)]);
}

#[test]
fn resolve_ladder_levels_drops_zeros_and_falls_back() {
    let (t, s) = resolve_ladder_levels(&vec![Tau(0), Tau(5)], &vec![Smc(0)], 4);
    assert_eq!(t, vec![Tau(5)]);
    assert_eq!(s, vec![Smc(1)]);
    let (t, s) = resolve_ladder_levels(&vec![], &vec![], 4);
    assert_eq!(t, vec![Tau(100), Tau(10), Tau(1)]);
    assert_eq!(s, vec![Smc(8), Smc(32), Smc(128)]);
}

#[test]
fn staircase_alternates_and_sorts_levels() {
    let ladder = StaircaseLadder.build_ladder(&[Tau(1), Tau(100), Tau(10)], &[Smc(64), Smc(16)]);
    assert_eq!(ladder, vec![phi(100, 16), phi(100, 64), phi(10, 64), phi(1, 64)]);
    let ladder = StaircaseLadder.build_ladder(&[Tau(7)], &[Smc(1), Smc(3), Smc(2)]);
    assert_eq!(ladder, vec![phi(7, 1), phi(7, 2), phi(7, 3)]);
    let ladder = StaircaseLadder.build_ladder(&[Tau(100), Tau(10), Tau(1)], &[Smc(8), Smc(32), Smc(128)]);
    assert_eq!(ladder, vec![phi(100, 8), phi(100, 32), phi(10, 32), phi(10, 128), phi(1, 128)]);
}

#[test]
fn staircase_is_monotone_and_ends_at_truth() {
    let ladder = StaircaseLadder.build_ladder(&[Tau(30), Tau(3), Tau(300), Tau(1)], &[Smc(10), Smc(5)]);
    for w in ladder.windows(2) {
        assert!(w[1].tau.0 <= w[0].tau.0);
        assert!(w[1].smc.0 >= w[0].smc.0);
    }
    assert_eq!(ladder[0], phi(300, 5));
    assert_eq!(*ladder.last().unwrap(), phi(1, 10));
    assert_eq!(ladder.len(), 5);
}

#[test]
fn paired_indices_are_same_smc_tighter_tau_after_cut() {
    let ladder = vec![phi(100, 16), phi(100, 64), phi(10, 64), phi(1, 64), phi(1, 128)];
    assert_eq!(collect_paired_phi_indices(&ladder, 1), vec![2, 3]);
    assert_eq!(collect_paired_phi_indices(&ladder, 0), Vec::<u32>::new());
    assert_eq!(collect_paired_phi_indices(&ladder, 3), Vec::<u32>::new());
    assert_eq!(collect_paired_phi_indices(&ladder, 9), Vec::<u32>::new());
}

#[test]
fn audit_targets_follow_paired_checkpoints_then_truth() {
    let origin = CandidateAuditOrigin {
        violated_j: 0,
        phi_at_cut: phi(100, 64),
        phi_idx_at_cut: 1,
        paired_phi_indices: vec![2, 3],
    };
    assert!(is_paired_checkpoint(Some(&origin), 2));
    assert!(!is_paired_checkpoint(Some(&origin), 1));
    assert!(!is_paired_checkpoint(None, 2));
    assert_eq!(next_audit_target_idx(Some(&origin), 1, 5), 2);
    assert_eq!(next_audit_target_idx(Some(&origin), 2, 5), 3);
    assert_eq!(next_audit_target_idx(Some(&origin), 3, 5), 4);
    assert_eq!(next_audit_target_idx(None, 0, 5), 4);
    assert_eq!(next_audit_target_idx(None, 0, 0), 0);
}

#[test]
fn staircase_each_step_moves_exactly_one_level() {
    let ladder = StaircaseLadder.build_ladder(&[Tau(30), Tau(3), Tau(300), Tau(1)], &[Smc(10), Smc(5), Smc(40)]);
    assert_eq!(ladder.len(), 4 + 3 - 1);
    for w in ladder.windows(2) {
        let tau_moved = w[1].tau != w[0].tau;
        let smc_moved = w[1].smc != w[0].smc;
        assert!(tau_moved != smc_moved);
    }
}

#[test]
fn staircase_does_not_depend_on_input_order() {
    let a = StaircaseLadder.build_ladder(&[Tau(1), Tau(100), Tau(10)], &[Smc(64), Smc(16), Smc(32)]);
    let b = StaircaseLadder.build_ladder(&[Tau(10), Tau(1), Tau(100)], &[Smc(32), Smc(64), Smc(16)]);
    let c = StaircaseLadder.build_ladder(&[Tau(100), Tau(10), Tau(1)], &[Smc(16), Smc(32), Smc(64)]);
    assert_eq!(a, b);
    assert_eq!(a, c);
}
