//! The deterministic toy evaluator's integer side: its shape, its pseudo-random
//! generator and the seeds of its Monte Carlo noise.
//!
//! The evaluator's values are floating point and are computed outside; every
//! random draw they use comes from the seeds defined here.

use vstd::prelude::*;
use vstd::bytes::{spec_u32_to_le_bytes, spec_u64_to_le_bytes, spec_u128_to_le_bytes};
use crate::hashing::{env_bytes, fnv1a, fnv1a_from, lemma_fnv1a_concat, phi_bytes, Fnv1aHasher, FNV_OFFSET};
use crate::search::{splitmix_finalize, splitmix_mix, wrap_add, SPLITMIX_GAMMA};
use crate::types::{Env, Phi};

verus! {

/// A tiny deterministic evaluator used by tests: objective `sum(x_i^2)`,
/// constraints `sum(x_i) - (j + 1)`, each with deterministic noise.
#[derive(Clone, Copy, Debug, PartialEq, Eq, Structural)]
pub struct ToyEvaluator {
    /// Number of constraints.
    pub m: usize,
    /// Number of search dimensions; zero means unspecified.
    pub dim: usize,
}

/// Encoding of the noise key `(x_hash, phi, env fields, k)`.
pub open spec fn noise_key_bytes(x_hash: u64, phi: Phi, env: Env, k: u32) -> Seq<u8> {
    spec_u64_to_le_bytes(x_hash) + phi_bytes(phi) + env_bytes(env) + spec_u32_to_le_bytes(k)
}

/// Encoding of the per-constraint key `(h, j)`.
pub open spec fn constraint_key_bytes(h: u64, j: u64) -> Seq<u8> {
    spec_u64_to_le_bytes(h) + spec_u64_to_le_bytes(j)
}

impl ToyEvaluator {
    /// SplitMix64 of `seed`: advance by the gamma, then finalise.
    pub fn prng_u64(seed: u64) -> (r: u64)
        ensures
            r == splitmix_mix(wrap_add(seed, SPLITMIX_GAMMA)),
    {
        splitmix_finalize(seed.wrapping_add(SPLITMIX_GAMMA))
    }

    /// The top 53 bits of `prng_u64(seed)`: the numerator of a uniform draw in `[0, 1)`
    /// with denominator 2^53.
    pub fn unit_bits(seed: u64) -> (r: u64)
        ensures
            r == splitmix_mix(wrap_add(seed, SPLITMIX_GAMMA)) >> 11u64,
            r < 0x20_0000_0000_0000u64,
    {
        let x = Self::prng_u64(seed);
        assert(x >> 11u64 < 0x20_0000_0000_0000u64) by (bit_vector);
        x >> 11u64
    }

    /// Number of constraints.
    pub fn num_constraints(&self) -> (r: usize)
        ensures
            r == self.m,
    {
        self.m
    }

    /// Number of search dimensions, when specified.
    pub fn search_dim(&self) -> (r: Option<usize>)
        ensures
            r == (if self.dim > 0 { Some(self.dim) } else { None::<usize> }),
    {
        if self.dim > 0 {
            Some(self.dim)
        } else {
            None
        }
    }

    /// Seed of the noise of sample `k` at `x` (given by its stable digest) and `phi`
    /// under `env`.
    pub fn noise_seed(x_hash: u64, phi: Phi, env: &Env, k: u32) -> (r: u64)
        ensures
            r == fnv1a(noise_key_bytes(x_hash, phi, *env, k)),
    {
        let mut h = Fnv1aHasher::new();
        h.write_u64(x_hash);
        h.write_u64(phi.tau.0);
        h.write_u32(phi.smc.0);
        h.write_u128(env.run_id);
        h.write_u128(env.config_hash);
        h.write_u128(env.data_snapshot_id);
        h.write_u128(env.rng_master_seed);
        h.write_u32(k);
        proof {
            let a = spec_u64_to_le_bytes(x_hash);
            let b = spec_u64_to_le_bytes(phi.tau.0);
            let c = spec_u32_to_le_bytes(phi.smc.0);
            let e1 = spec_u128_to_le_bytes(env.run_id);
            let e2 = spec_u128_to_le_bytes(env.config_hash);
            let e3 = spec_u128_to_le_bytes(env.data_snapshot_id);
            let e4 = spec_u128_to_le_bytes(env.rng_master_seed);
            let d = spec_u32_to_le_bytes(k);
            lemma_fnv1a_concat(FNV_OFFSET, a, b);
            lemma_fnv1a_concat(FNV_OFFSET, a + b, c);
            lemma_fnv1a_concat(FNV_OFFSET, a + b + c, e1);
            lemma_fnv1a_concat(FNV_OFFSET, a + b + c + e1, e2);
            lemma_fnv1a_concat(FNV_OFFSET, a + b + c + e1 + e2, e3);
            lemma_fnv1a_concat(FNV_OFFSET, a + b + c + e1 + e2 + e3, e4);
            lemma_fnv1a_concat(FNV_OFFSET, a + b + c + e1 + e2 + e3 + e4, d);
            assert(a + b + c + e1 + e2 + e3 + e4 + d =~= a + (b + c) + (e1 + e2 + e3 + e4) + d);
        }
        h.finish()
    }

    /// Seed of the noise of constraint `j`, derived from the sample's seed `h`.
    pub fn constraint_seed(h: u64, j: usize) -> (r: u64)
        ensures
            r == fnv1a(constraint_key_bytes(h, j as u64)),
    {
        let mut st = Fnv1aHasher::new();
        st.write_u64(h);
        st.write_u64(j as u64);
        proof {
            lemma_fnv1a_concat(FNV_OFFSET, spec_u64_to_le_bytes(h), spec_u64_to_le_bytes(j as u64));
        }
        st.finish()
    }
}

} // verus!
