//! Plain-value descriptors exchanged with foreign callers, and their conversions.

use vstd::prelude::*;
use crate::engine::EngineStats;
use crate::types::Env;

verus! {

/// Environment descriptor with 64-bit fields.
#[derive(Clone, Copy, Debug, PartialEq, Eq, Structural)]
pub struct ImadsEnv {
    pub run_id: u64,
    pub config_hash: u64,
    pub data_snapshot_id: u64,
    pub rng_master_seed: u64,
}

/// Engine statistics as handed to foreign callers.
#[derive(Clone, Copy, Debug, PartialEq, Eq, Structural)]
pub struct ImadsStats {
    pub truth_evals: u64,
    pub truth_decision_cache_hits: u64,
    pub truth_eval_cache_hits: u64,
    pub partial_steps: u64,
    pub partial_decision_cache_hits: u64,
    pub partial_eval_cache_hits: u64,
    pub cheap_rejects: u64,
    pub invalid_eval_rejects: u64,
}

/// The run environment described by `e`: each field widened to 128 bits.
pub fn ffi_env_to_env(e: &ImadsEnv) -> (r: Env)
    ensures
        r.run_id == e.run_id as u128,
        r.config_hash == e.config_hash as u128,
        r.data_snapshot_id == e.data_snapshot_id as u128,
        r.rng_master_seed == e.rng_master_seed as u128,
{
    Env {
        run_id: e.run_id as u128,
        config_hash: e.config_hash as u128,
        data_snapshot_id: e.data_snapshot_id as u128,
        rng_master_seed: e.rng_master_seed as u128,
    }
}

/// The statistics of a run, field for field.
pub fn stats_to_ffi(s: &EngineStats) -> (r: ImadsStats)
    ensures
        r.truth_evals == s.truth_evals,
        r.truth_decision_cache_hits == s.truth_decision_cache_hits,
        r.truth_eval_cache_hits == s.truth_eval_cache_hits,
        r.partial_steps == s.partial_steps,
        r.partial_decision_cache_hits == s.partial_decision_cache_hits,
        r.partial_eval_cache_hits == s.partial_eval_cache_hits,
        r.cheap_rejects == s.cheap_rejects,
        r.invalid_eval_rejects == s.invalid_eval_rejects,
{
    ImadsStats {
        truth_evals: s.truth_evals,
        truth_decision_cache_hits: s.truth_decision_cache_hits,
        truth_eval_cache_hits: s.truth_eval_cache_hits,
        partial_steps: s.partial_steps,
        partial_decision_cache_hits: s.partial_decision_cache_hits,
        partial_eval_cache_hits: s.partial_eval_cache_hits,
        cheap_rejects: s.cheap_rejects,
        invalid_eval_rejects: s.invalid_eval_rejects,
    }
}

} // verus!
