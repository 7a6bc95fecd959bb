use imads::calibrator::KIntervalKey;
use imads::kstats::{interval_key, sorted_distinct_intervals, sorted_distinct_phis, structured_pairs, upsert_checkpoint};
use imads::types::{Phi, Smc, Tau};
use imads::window::push_bounded;

fn phi(t: u64, s: u32) -> Phi {
    Phi { tau: Tau(t), smc: Smc(s) }
}

#[test]
fn interval_needs_same_samples_and_tighter_tolerance() {
    assert_eq!(
        interval_key(phi(100, 64), phi(10, 64)),
        Some(KIntervalKey { tau_loose: Tau(100), tau_tight: Tau(10), smc: Smc(64) })
    );
    assert_eq!(interval_key(phi(100, 64), phi(100, 64)), None);
    assert_eq!(interval_key(phi(100, 16), phi(10, 64)), None);
    assert_eq!(interval_key(phi(10, 64), phi(100, 64)), None);
}

#[test]
fn structured_pairs_are_consecutive_interval_windows() {
    let cps = vec![phi(100, 64), phi(10, 64), phi(1, 64), phi(1, 128)];
    assert_eq!(structured_pairs(&cps), vec![0, 1]);
    assert!(structured_pairs(&[phi(100, 64)]).is_empty());
    assert!(structured_pairs(&[]).is_empty());
}

#[test]
fn paired_checkpoints_stay_sorted_and_replace_by_index() {
    let mut v: Vec<(u32, &str)> = Vec::new();
    upsert_checkpoint(&mut v, 3, "c");
    upsert_checkpoint(&mut v, 1, "a");
    upsert_checkpoint(&mut v, 2, "b");
    upsert_checkpoint(&mut v, 3, "c2");
    assert_eq!(v, vec![(1, "a"), (2, "b"), (3, "c2")]);
}

#[test]
fn sorted_key_sets_are_distinct_and_ordered() {
    let keys = vec![phi(10, 64), phi(1, 8), phi(10, 16), phi(1, 8), phi(100, 1)];
    assert_eq!(sorted_distinct_phis(&keys), vec![phi(1, 8), phi(10, 16), phi(10, 64), phi(100, 1)]);
    let k = |a: u64, b: u64, s: u32| KIntervalKey { tau_loose: Tau(a), tau_tight: Tau(b), smc: Smc(s) };
    let keys = vec![k(100, 10, 64), k(10, 1, 64), k(100, 1, 64), k(10, 1, 64), k(100, 10, 16)];
    let mut expect = keys.clone();
    expect.sort();
    expect.dedup();
    assert_eq!(sorted_distinct_intervals(&keys), expect);
}

#[test]
fn bounded_windows_keep_the_newest_samples() {
    let mut w: Vec<u32> = Vec::new();
    for i in 0..10 {
        push_bounded(&mut w, i, 4);
    }
    assert_eq!(w, vec![6, 7, 8, 9]);
    push_bounded(&mut w, 42, 0);
    assert_eq!(w, vec![42]);
}
