use imads::calibrator::{AuditLedger, AuditOf, Counts};
use imads::types::{CandidateId, Phi, Smc, Tau};

fn cut(j: usize, idx: u32) -> AuditOf {
    AuditOf { violated_j: j, phi_at_cut: Phi { tau: Tau(100), smc: Smc(16) }, phi_idx_at_cut: idx }
}

#[test]
fn counts_grow_levels_with_zeros() {
    let mut c = Counts::new();
    c.cut_by_phi_idx.push(4);
    c.ensure_level(2);
    assert_eq!(c.cut_by_phi_idx, vec![4, 0, 0]);
    assert_eq!(c.audit_by_phi_idx, vec![0, 0, 0]);
    c.ensure_level(1);
    assert_eq!(c.cut_by_phi_idx.len(), 3);
}

#[test]
fn ledger_counts_cuts_once_per_candidate() {
    let mut l = AuditLedger::new(2);
    assert!(l.note_cut(CandidateId(1), cut(0, 1)));
    assert!(!l.note_cut(CandidateId(1), cut(0, 1)));
    assert!(l.note_cut(CandidateId(2), cut(1, 0)));
    let s = l.snapshot(2);
    assert_eq!(s.cut_n, vec![1, 1]);
    assert_eq!(s.cut_n_by_phi_idx, vec![vec![0, 1], vec![1]]);
    assert_eq!(s.audit_n, vec![0, 0]);
}

#[test]
fn ledger_closes_audits_on_truth() {
    let mut l = AuditLedger::new(1);
    l.note_cut(CandidateId(1), cut(0, 1));
    l.note_cut(CandidateId(2), cut(0, 1));
    assert_eq!(l.note_truth(CandidateId(1), true, false), Some(cut(0, 1)));
    assert_eq!(l.note_truth(CandidateId(1), true, false), None);
    assert_eq!(l.note_truth(CandidateId(2), false, true), Some(cut(0, 1)));
    assert_eq!(l.note_truth(CandidateId(3), false, true), None);
    let s = l.snapshot(1);
    assert_eq!(s.cut_n, vec![2]);
    assert_eq!(s.audit_n, vec![2]);
    assert_eq!(s.false_infeas_n, vec![1]);
    assert_eq!(s.confirmed_violation_n, vec![1]);
    assert_eq!(s.audit_n_by_phi_idx, vec![vec![0, 2]]);
    assert_eq!(s.false_infeas_n_by_phi_idx, vec![vec![0, 1]]);
}

#[test]
fn ledger_ignores_untracked_constraints_in_counts() {
    let mut l = AuditLedger::new(1);
    assert!(l.can_note_cut(&cut(5, 0)));
    assert!(l.note_cut(CandidateId(1), cut(5, 0)));
    assert_eq!(l.note_truth(CandidateId(1), true, true), Some(cut(5, 0)));
    let s = l.snapshot(2);
    assert_eq!(s.cut_n, vec![0, 0]);
    assert_eq!(s.audit_n, vec![0, 0]);
    assert_eq!(l.num_constraints(), 1);
}

#[test]
fn ledger_per_level_counts_stay_bounded() {
    let mut l = AuditLedger::new(2);
    l.note_cut(CandidateId(1), cut(0, 0));
    l.note_cut(CandidateId(2), cut(0, 2));
    l.note_cut(CandidateId(3), cut(0, 2));
    l.note_cut(CandidateId(4), cut(1, 1));
    l.note_truth(CandidateId(2), true, false);
    l.note_truth(CandidateId(3), false, true);
    l.note_truth(CandidateId(4), false, false);
    l.note_truth(CandidateId(9), true, true);
    let s = l.snapshot(2);
    for j in 0..2 {
        let n = s.cut_n_by_phi_idx[j].len();
        assert_eq!(s.audit_n_by_phi_idx[j].len(), n);
        assert_eq!(s.false_infeas_n_by_phi_idx[j].len(), n);
        assert_eq!(s.confirmed_violation_n_by_phi_idx[j].len(), n);
        for lv in 0..n {
            assert!(s.audit_n_by_phi_idx[j][lv] <= s.cut_n_by_phi_idx[j][lv]);
            assert!(s.false_infeas_n_by_phi_idx[j][lv] <= s.audit_n_by_phi_idx[j][lv]);
            assert!(s.confirmed_violation_n_by_phi_idx[j][lv] <= s.audit_n_by_phi_idx[j][lv]);
        }
    }
    assert_eq!(s.cut_n_by_phi_idx[0], vec![1, 0, 2]);
    assert_eq!(s.audit_n_by_phi_idx[0], vec![0, 0, 2]);
    assert_eq!(s.false_infeas_n_by_phi_idx[0], vec![0, 0, 1]);
    assert_eq!(s.confirmed_violation_n_by_phi_idx[0], vec![0, 0, 1]);
    assert_eq!(s.audit_n_by_phi_idx[1], vec![0, 1]);
}
