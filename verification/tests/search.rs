use imads::evaluator::ToyEvaluator;
use imads::search::{halton_start_index, pick_coordinates, search_seed, splitmix_finalize, SearchState, SplitMix64};
use imads::types::{CandidateId, Env};

#[test]
fn splitmix_matches_reference_sequence_from_zero() {
    let mut r = SplitMix64::new(0);
    assert_eq!(r.next_u64(), 0xe220a8397b1dcdaf);
    assert_eq!(r.next_u64(), 0x6e789e6aa1b965f4);
    assert_eq!(r.next_u64(), 0x06c45d188009454f);
}

#[test]
fn toy_prng_is_one_splitmix_step() {
    assert_eq!(ToyEvaluator::prng_u64(0), 0xe220a8397b1dcdaf);
    let mut r = SplitMix64::new(12345);
    assert_eq!(ToyEvaluator::prng_u64(12345), r.next_u64());
    assert_eq!(splitmix_finalize(0), 0);
}

#[test]
fn toy_unit_bits_are_top_53_bits() {
    for seed in [0u64, 1, 99, u64::MAX] {
        let b = ToyEvaluator::unit_bits(seed);
        assert!(b < (1u64 << 53));
        assert_eq!(b, ToyEvaluator::prng_u64(seed) >> 11);
    }
}

#[test]
fn splitmix_same_seed_same_stream() {
    let mut a = SplitMix64::new(42);
    let mut b = SplitMix64::new(42);
    for _ in 0..10 {
        assert_eq!(a.next_u64(), b.next_u64());
    }
}

#[test]
fn next_i64_range_stays_in_range() {
    let mut r = SplitMix64::new(7);
    for _ in 0..200 {
        let v = r.next_i64_range(-3, 4);
        assert!((-3..4).contains(&v));
    }
    let mut a = SplitMix64::new(9);
    let mut b = SplitMix64::new(9);
    let d = b.next_u64();
    assert_eq!(a.next_i64_range(1, 10), 1 + (d % 9) as i64);
}

#[test]
fn coordinate_picks_are_distinct_and_bounded() {
    for dim in [1usize, 2, 5, 6, 7, 20, 128] {
        let mut r = SplitMix64::new(dim as u64 * 31 + 5);
        for _ in 0..50 {
            let picks = pick_coordinates(&mut r, dim);
            assert!(!picks.is_empty());
            assert!(picks.len() <= dim.min(6));
            for (a, &p) in picks.iter().enumerate() {
                assert!(p < dim);
                for &q in &picks[a + 1..] {
                    assert_ne!(p, q);
                }
            }
        }
    }
}

#[test]
fn coordinate_picks_follow_the_partial_shuffle() {
    // Reproduce the draws by hand: one for the count, one per swap.
    let dim = 10usize;
    let mut r = SplitMix64::new(2024);
    let mut shadow = SplitMix64::new(2024);
    let picks = pick_coordinates(&mut r, dim);
    let n = 1 + (shadow.next_u64() as usize % 6);
    let mut idx: Vec<usize> = (0..dim).collect();
    for i in 0..n {
        let j = i + (shadow.next_u64() as usize % (dim - i));
        idx.swap(i, j);
    }
    assert_eq!(picks, idx[..n].to_vec());
    // Both generators consumed the same number of draws.
    assert_eq!(r.next_u64(), shadow.next_u64());
}

#[test]
fn search_seeds_come_from_low_bits_of_env() {
    let env = Env { run_id: 7, config_hash: 0, data_snapshot_id: 0, rng_master_seed: 42 };
    assert_eq!(search_seed(&env), 42 ^ 7);
    let env = Env { run_id: (1u128 << 64) | 3, config_hash: 0, data_snapshot_id: 0, rng_master_seed: (5u128 << 64) | 1 };
    assert_eq!(search_seed(&env), 1 ^ 3);
    let env = Env { run_id: 0, config_hash: 0, data_snapshot_id: 0, rng_master_seed: 123 };
    assert_eq!(halton_start_index(&env), 123u64.wrapping_mul(0x517cc1b727220a95) >> 32);
}

#[test]
fn candidate_ids_pack_iteration_and_counter() {
    let st = SearchState { iter: 3 };
    assert_eq!(st.candidate_id(5), CandidateId((3u64 << 32) | 5));
    let st = SearchState { iter: 0 };
    assert_eq!(st.candidate_id(0), CandidateId(0));
}
