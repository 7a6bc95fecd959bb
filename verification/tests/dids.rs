use imads::dids::{clamp_levels, commit_assignment, DidsHistory, DidsRecord, EarlyCut, OutcomeTag};
use imads::types::{Phi, Smc, Tau, XMesh};

fn rec(phi_idx: u32, outcome: OutcomeTag, violated_j: Option<usize>) -> DidsRecord {
    DidsRecord {
        x: XMesh(vec![phi_idx as i64]),
        phi: Phi { tau: Tau(10), smc: Smc(16) },
        phi_idx,
        outcome,
        violated_j,
    }
}

#[test]
fn history_keeps_the_most_recent_records() {
    let mut h = DidsHistory::new();
    for i in 0..5u32 {
        h.record(rec(i, OutcomeTag::Partial, None), 3);
    }
    assert_eq!(h.len(), 3);
    let idx: Vec<u32> = h.records.iter().map(|r| r.phi_idx).collect();
    assert_eq!(idx, vec![2, 3, 4]);
    // A capacity of zero still keeps the newest record.
    h.record(rec(9, OutcomeTag::Truth, None), 0);
    assert_eq!(h.len(), 1);
    assert_eq!(h.records[0].phi_idx, 9);
}

#[test]
fn early_cut_observations_clamp_levels_and_age() {
    let mut h = DidsHistory::new();
    h.record(rec(0, OutcomeTag::EarlyInfeasible, Some(1)), 100);
    h.record(rec(1, OutcomeTag::Partial, None), 100);
    h.record(rec(7, OutcomeTag::EarlyInfeasible, Some(0)), 100);
    h.record(rec(2, OutcomeTag::EarlyInfeasible, Some(5)), 100);
    h.record(rec(2, OutcomeTag::EarlyInfeasible, None), 100);
    let obs = h.early_cut_observations(2, 3);
    assert_eq!(
        obs,
        vec![EarlyCut { j: 1, level: 1, age: 4 }, EarlyCut { j: 0, level: 3, age: 2 }]
    );
    // An empty ladder counts as one level.
    let obs = h.early_cut_observations(2, 0);
    assert_eq!(obs[1], EarlyCut { j: 0, level: 1, age: 2 });
}

#[test]
fn assignment_levels_are_clamped_into_the_ladder() {
    let mut a = vec![0, 1, 3, 9];
    clamp_levels(&mut a, 4);
    assert_eq!(a, vec![1, 1, 3, 4]);
    let mut a = vec![0, 5];
    clamp_levels(&mut a, 0);
    assert_eq!(a, vec![1, 1]);
}

#[test]
fn committing_an_assignment_bumps_revision_only_on_change() {
    let mut cur = vec![1, 1];
    let d = commit_assignment(&mut cur, vec![1, 1]);
    assert_eq!(d.0, 0);
    assert_eq!(cur, vec![1, 1]);
    let d = commit_assignment(&mut cur, vec![1, 2]);
    assert_eq!(d.0, 1);
    assert_eq!(cur, vec![1, 2]);
    let d = commit_assignment(&mut cur, vec![1, 2, 1]);
    assert_eq!(d.0, 1);
    assert_eq!(cur, vec![1, 2, 1]);
}
