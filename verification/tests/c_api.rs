use imads::c_api::{ffi_env_to_env, stats_to_ffi, ImadsEnv};
use imads::engine::EngineStats;
use imads::types::Env;

#[test]
fn foreign_env_widens_each_field() {
    let e = ImadsEnv { run_id: 1, config_hash: u64::MAX, data_snapshot_id: 3, rng_master_seed: 4 };
    assert_eq!(
        ffi_env_to_env(&e),
        Env { run_id: 1, config_hash: u64::MAX as u128, data_snapshot_id: 3, rng_master_seed: 4 }
    );
}

#[test]
fn foreign_stats_copy_each_counter() {
    let s = EngineStats {
        truth_evals: 1,
        truth_decision_cache_hits: 2,
        truth_eval_cache_hits: 3,
        partial_steps: 4,
        partial_decision_cache_hits: 5,
        partial_eval_cache_hits: 6,
        cheap_rejects: 7,
        invalid_eval_rejects: 8,
    };
    let f = stats_to_ffi(&s);
    assert_eq!(
        [f.truth_evals, f.truth_decision_cache_hits, f.truth_eval_cache_hits, f.partial_steps,
         f.partial_decision_cache_hits, f.partial_eval_cache_hits, f.cheap_rejects, f.invalid_eval_rejects],
        [1, 2, 3, 4, 5, 6, 7, 8]
    );
}
