use imads::store::CandidateStore;
use imads::types::{CandidateId, CandidateStageState, CandidateStatus, EnvRev, Phi, PolicyRev, Smc, Tau, XMesh};

fn phi(t: u64, s: u32) -> Phi {
    Phi { tau: Tau(t), smc: Smc(s) }
}

fn cand(id: u64) -> CandidateStageState {
    CandidateStageState::new_ready(CandidateId(id), XMesh(vec![id as i64]), 0, PolicyRev(0), 0)
}

#[test]
fn store_ignores_duplicate_identifiers() {
    let mut s = CandidateStore::new();
    assert!(s.insert_new(cand(5)));
    assert!(s.insert_new(cand(9)));
    assert!(!s.insert_new(cand(5)));
    assert_eq!(s.len(), 2);
    assert_eq!(s.position(CandidateId(9)), Some(1));
    assert_eq!(s.position(CandidateId(4)), None);
    assert!(s.contains(CandidateId(5)));
    assert_eq!(s.get(0).id, CandidateId(5));
}

#[test]
fn dispatch_batch_takes_ready_candidates_in_pick_order() {
    let ladder = vec![phi(10, 8), phi(1, 8)];
    let mut s = CandidateStore::new();
    for id in [1u64, 2, 3, 4] {
        s.insert_new(cand(id));
    }
    let picked = [CandidateId(3), CandidateId(99), CandidateId(3), CandidateId(1), CandidateId(2)];
    let work = s.dispatch_batch(&picked, 4, &ladder, EnvRev(1), PolicyRev(2), 3);
    let ids: Vec<u64> = work.iter().map(|w| w.cand_id.0).collect();
    assert_eq!(ids, vec![3, 1]);
    for w in &work {
        assert_eq!(w.phi_idx, 0);
        assert_eq!(w.phi, ladder[0]);
        assert_eq!(w.policy_rev, PolicyRev(2));
        assert_eq!(w.x.0, vec![w.cand_id.0 as i64]);
    }
    assert_eq!(s.get(2).status, CandidateStatus::InFlight { phi_idx: 0 });
    assert_eq!(s.get(0).status, CandidateStatus::InFlight { phi_idx: 0 });
    assert_eq!(s.get(1).status, CandidateStatus::Ready);
    assert_eq!(s.ready_positions(), vec![1, 3]);
}

#[test]
fn dispatch_batch_skips_candidates_past_the_ladder() {
    let ladder = vec![phi(10, 8)];
    let mut s = CandidateStore::new();
    let mut c = cand(1);
    c.next_phi_idx = 1;
    s.insert_new(c);
    let work = s.dispatch_batch(&[CandidateId(1)], 10, &ladder, EnvRev(0), PolicyRev(0), 0);
    assert!(work.is_empty());
    assert_eq!(s.get(0).status, CandidateStatus::Ready);
}
