use imads::scheduler::{CancelPolicy, DefaultScheduler};
use imads::types::CandidateId;

#[test]
fn scheduler_batches_one_candidate_per_worker() {
    let mut s = DefaultScheduler::new();
    assert_eq!(s.batch_size(), 0);
    s.configure(0);
    assert_eq!(s.batch_size(), 1);
    s.configure(3);
    assert_eq!(s.batch_size(), 3);
    let ready: Vec<CandidateId> = (0..5).map(CandidateId).collect();
    assert_eq!(s.select_next(&ready), vec![CandidateId(0), CandidateId(1), CandidateId(2)]);
    assert_eq!(s.select_next(&ready[..2]), vec![CandidateId(0), CandidateId(1)]);
    assert!(s.select_next(&[]).is_empty());
}

#[test]
fn scheduler_cancels_only_on_new_incumbent() {
    let s = DefaultScheduler::new();
    assert_eq!(s.should_cancel_inflight(true), CancelPolicy::BestEffort);
    assert_eq!(s.should_cancel_inflight(false), CancelPolicy::Never);
}
