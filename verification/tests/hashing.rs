use std::hash::{Hash, Hasher};

use imads::audit::audit_key_hash;
use imads::evaluator::ToyEvaluator;
use imads::hashing::{env_rev, env_rev_with_step_bits, stable_hash_real_bits, stable_hash_u64, Fnv1aHasher};
use imads::types::{Env, EnvRev, Phi, Smc, Tau, XMesh};

/// Reference FNV-1a driven through `std::hash::Hash`.
struct RefFnv(u64);

impl Hasher for RefFnv {
    fn finish(&self) -> u64 {
        self.0
    }
    fn write(&mut self, bytes: &[u8]) {
        for b in bytes {
            self.0 ^= *b as u64;
            self.0 = self.0.wrapping_mul(0x00000100000001B3);
        }
    }
}

fn ref_hash<T: Hash>(t: &T) -> u64 {
    let mut h = RefFnv(0xcbf29ce484222325);
    t.hash(&mut h);
    h.finish()
}

fn env() -> Env {
    Env { run_id: 1, config_hash: 2, data_snapshot_id: 3, rng_master_seed: 4 }
}

#[test]
fn fnv_hasher_matches_published_vectors() {
    let h = Fnv1aHasher::new();
    assert_eq!(h.finish(), 0xcbf29ce484222325);
    let mut h = Fnv1aHasher::new();
    h.write(b"a");
    assert_eq!(h.finish(), 0xaf63dc4c8601ec8c);
    let mut h = Fnv1aHasher::new();
    h.write(b"foobar");
    assert_eq!(h.finish(), 0x85944171f73967e8);
}

#[test]
fn fnv_hasher_is_incremental() {
    let mut a = Fnv1aHasher::new();
    a.write(b"foo");
    a.write(b"bar");
    let mut b = Fnv1aHasher::new();
    b.write(b"foobar");
    assert_eq!(a.finish(), b.finish());
}

#[test]
fn stable_hash_matches_std_hash_of_coordinates() {
    for x in [vec![], vec![0i64], vec![10, -5, 0], vec![i64::MIN, i64::MAX]] {
        let expect = ref_hash(&x);
        assert_eq!(stable_hash_u64(&XMesh(x)), expect);
    }
}

#[test]
fn env_rev_matches_std_hash_of_fields() {
    let e = env();
    let expect = ref_hash(&(e.run_id, e.config_hash, e.data_snapshot_id, e.rng_master_seed));
    assert_eq!(env_rev(&e), EnvRev(expect as u128));
    let e2 = Env { run_id: 2, ..e };
    assert_ne!(env_rev(&e), env_rev(&e2));
}

#[test]
fn env_rev_with_step_bits_covers_geometry() {
    let e = env();
    let bits = [0.5f64.to_bits(), 2.0f64.to_bits()];
    let mut h = RefFnv(0xcbf29ce484222325);
    e.run_id.hash(&mut h);
    e.config_hash.hash(&mut h);
    e.data_snapshot_id.hash(&mut h);
    e.rng_master_seed.hash(&mut h);
    for b in bits {
        b.hash(&mut h);
    }
    assert_eq!(env_rev_with_step_bits(&e, &bits), EnvRev(h.finish() as u128));
    assert_eq!(env_rev_with_step_bits(&e, &[]), env_rev(&e));
}

#[test]
fn real_point_hash_matches_std_hash_of_bit_patterns() {
    let bits: Vec<u64> = vec![1.5f64.to_bits(), (-0.25f64).to_bits()];
    let expect = ref_hash(&bits);
    assert_eq!(stable_hash_real_bits(&bits), expect);
}

#[test]
fn audit_key_matches_std_hash_of_tuple() {
    let x = XMesh(vec![3, -1]);
    let phi = Phi { tau: Tau(10), smc: Smc(64) };
    let rev = env_rev(&env());
    let expect = ref_hash(&(stable_hash_u64(&x), phi, rev));
    assert_eq!(audit_key_hash(&x, phi, rev), expect);
}

#[test]
fn toy_noise_seeds_match_std_hash_of_keys() {
    let e = env();
    let phi = Phi { tau: Tau(100), smc: Smc(16) };
    let xh = 0x1234_5678_9abc_def0u64;
    let expect = ref_hash(&(xh, phi, e.run_id, e.config_hash, e.data_snapshot_id, e.rng_master_seed, 7u32));
    let h = ToyEvaluator::noise_seed(xh, phi, &e, 7);
    assert_eq!(h, expect);
    assert_eq!(ToyEvaluator::constraint_seed(h, 3), ref_hash(&(h, 3u64)));
}
