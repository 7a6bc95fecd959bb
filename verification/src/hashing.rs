//! Deterministic FNV-1a hashing of run metadata, mesh points and selection keys.
//!
//! Every digest here is FNV-1a (64 bit) over an explicit little-endian byte
//! encoding of the hashed values: integers as their little-endian bytes, a vector
//! as its length (eight bytes) followed by its elements, and a tuple or struct as
//! its fields in order.

use vstd::prelude::*;
use vstd::bytes::{spec_u32_to_le_bytes, spec_u64_to_le_bytes, spec_u128_to_le_bytes};
use crate::types::{Env, EnvRev, Phi, XMesh};

verus! {

/// FNV-1a offset basis.
pub const FNV_OFFSET: u64 = 0xcbf29ce484222325u64;

/// FNV-1a prime.
pub const FNV_PRIME: u64 = 0x00000100000001B3u64;

/// One FNV-1a step: xor in the byte, then multiply by the prime modulo 2^64.
pub open spec fn fnv_step(h: u64, b: u8) -> u64 {
    (((h ^ (b as u64)) as nat * FNV_PRIME as nat) % 0x1_0000_0000_0000_0000nat) as u64
}

/// FNV-1a over `bytes`, starting from state `h`.
pub open spec fn fnv1a_from(h: u64, bytes: Seq<u8>) -> u64
    decreases bytes.len(),
{
    if bytes.len() == 0 {
        h
    } else {
        fnv_step(fnv1a_from(h, bytes.drop_last()), bytes.last())
    }
}

/// FNV-1a digest of `bytes`.
pub open spec fn fnv1a(bytes: Seq<u8>) -> u64 {
    fnv1a_from(FNV_OFFSET, bytes)
}

/// Hashing a concatenation is hashing the second part from the state after the first.
pub proof fn lemma_fnv1a_concat(h: u64, a: Seq<u8>, b: Seq<u8>)
    ensures
        fnv1a_from(h, a + b) == fnv1a_from(fnv1a_from(h, a), b),
    decreases b.len(),
{
    if b.len() == 0 {
        assert(a + b =~= a);
    } else {
        lemma_fnv1a_concat(h, a, b.drop_last());
        assert((a + b).drop_last() =~= a + b.drop_last());
        assert((a + b).last() == b.last());
    }
}

/// Little-endian encoding of a sequence of `u64` values, one after the other.
pub open spec fn u64s_le_bytes(s: Seq<u64>) -> Seq<u8>
    decreases s.len(),
{
    if s.len() == 0 {
        Seq::empty()
    } else {
        u64s_le_bytes(s.drop_last()) + spec_u64_to_le_bytes(s.last())
    }
}

/// Little-endian encoding of a sequence of `i64` values (two's complement).
pub open spec fn i64s_le_bytes(s: Seq<i64>) -> Seq<u8> {
    u64s_le_bytes(s.map_values(|v: i64| v as u64))
}

/// Encoding of a mesh point: its length as eight bytes, then its coordinates.
pub open spec fn xmesh_bytes(x: Seq<i64>) -> Seq<u8> {
    spec_u64_to_le_bytes(x.len() as u64) + i64s_le_bytes(x)
}

/// Encoding of a fidelity step: `tau` then `smc`.
pub open spec fn phi_bytes(phi: Phi) -> Seq<u8> {
    spec_u64_to_le_bytes(phi.tau.0) + spec_u32_to_le_bytes(phi.smc.0)
}

/// Encoding of an environment: its four fields in order.
pub open spec fn env_bytes(env: Env) -> Seq<u8> {
    spec_u128_to_le_bytes(env.run_id) + spec_u128_to_le_bytes(env.config_hash)
        + spec_u128_to_le_bytes(env.data_snapshot_id) + spec_u128_to_le_bytes(env.rng_master_seed)
}

/// Deterministic FNV-1a hasher.
pub struct Fnv1aHasher(u64);

impl View for Fnv1aHasher {
    type V = u64;

    closed spec fn view(&self) -> u64 {
        self.0
    }
}

impl Fnv1aHasher {
    /// A hasher at the FNV offset basis.
    pub fn new() -> (h: Self)
        ensures
            h@ == FNV_OFFSET,
    {
        Fnv1aHasher(FNV_OFFSET)
    }

    /// The current digest.
    pub fn finish(&self) -> (r: u64)
        ensures
            r == self@,
    {
        self.0
    }

    /// Feed `bytes` into the hasher.
    pub fn write(&mut self, bytes: &[u8])
        ensures
            final(self)@ == fnv1a_from(old(self)@, bytes@),
    {
        let mut hash = self.0;
        let n = bytes.len();
        let mut i: usize = 0;
        while i < n
            invariant
                n == bytes@.len(),
                i <= n,
                hash == fnv1a_from(old(self)@, bytes@.take(i as int)),
            decreases n - i,
        {
            let b = bytes[i];
            proof {
                assert(bytes@.take(i + 1).drop_last() =~= bytes@.take(i as int));
                assert(bytes@.take(i + 1).last() == b);
            }
            hash = (hash ^ (b as u64)).wrapping_mul(FNV_PRIME);
            i = i + 1;
        }
        assert(bytes@.take(n as int) =~= bytes@);
        self.0 = hash;
    }

    /// Feed a `u32` as its four little-endian bytes.
    pub fn write_u32(&mut self, v: u32)
        ensures
            final(self)@ == fnv1a_from(old(self)@, spec_u32_to_le_bytes(v)),
    {
        let b = vstd::bytes::u32_to_le_bytes(v);
        self.write(b.as_slice());
    }

    /// Feed a `u64` as its eight little-endian bytes.
    pub fn write_u64(&mut self, v: u64)
        ensures
            final(self)@ == fnv1a_from(old(self)@, spec_u64_to_le_bytes(v)),
    {
        let b = vstd::bytes::u64_to_le_bytes(v);
        self.write(b.as_slice());
    }

    /// Feed a `u128` as its sixteen little-endian bytes.
    pub fn write_u128(&mut self, v: u128)
        ensures
            final(self)@ == fnv1a_from(old(self)@, spec_u128_to_le_bytes(v)),
    {
        let b = vstd::bytes::u128_to_le_bytes(v);
        self.write(b.as_slice());
    }

    /// Feed a sequence of `u64` values, each as eight little-endian bytes.
    pub fn write_u64s(&mut self, vs: &[u64])
        ensures
            final(self)@ == fnv1a_from(old(self)@, u64s_le_bytes(vs@)),
    {
        let n = vs.len();
        let mut i: usize = 0;
        while i < n
            invariant
                n == vs@.len(),
                i <= n,
                self@ == fnv1a_from(old(self)@, u64s_le_bytes(vs@.take(i as int))),
            decreases n - i,
        {
            let ghost before = self@;
            self.write_u64(vs[i]);
            proof {
                let t = vs@.take(i + 1);
                assert(t.drop_last() =~= vs@.take(i as int));
                assert(t.last() == vs@[i as int]);
                lemma_fnv1a_concat(old(self)@, u64s_le_bytes(vs@.take(i as int)), spec_u64_to_le_bytes(vs@[i as int]));
            }
            i = i + 1;
        }
        assert(vs@.take(n as int) =~= vs@);
    }

    /// Feed a sequence of `i64` values, each as eight little-endian bytes (two's complement).
    pub fn write_i64s(&mut self, vs: &[i64])
        ensures
            final(self)@ == fnv1a_from(old(self)@, i64s_le_bytes(vs@)),
    {
        let n = vs.len();
        let mut i: usize = 0;
        let ghost m = vs@.map_values(|v: i64| v as u64);
        while i < n
            invariant
                n == vs@.len(),
                i <= n,
                m == vs@.map_values(|v: i64| v as u64),
                self@ == fnv1a_from(old(self)@, u64s_le_bytes(m.take(i as int))),
            decreases n - i,
        {
            let v = vs[i];
            self.write_u64(v as u64);
            proof {
                let t = m.take(i + 1);
                assert(t.drop_last() =~= m.take(i as int));
                assert(t.last() == v as u64);
                lemma_fnv1a_concat(old(self)@, u64s_le_bytes(m.take(i as int)), spec_u64_to_le_bytes(v as u64));
            }
            i = i + 1;
        }
        assert(m.take(n as int) =~= m);
    }
}

/// Environment revision: FNV-1a over the four fields of `env`.
pub fn env_rev(env: &Env) -> (r: EnvRev)
    ensures
        r.0 == fnv1a(env_bytes(*env)) as u128,
{
    let mut h = Fnv1aHasher::new();
    h.write_u128(env.run_id);
    h.write_u128(env.config_hash);
    h.write_u128(env.data_snapshot_id);
    h.write_u128(env.rng_master_seed);
    proof {
        let a = spec_u128_to_le_bytes(env.run_id);
        let b = spec_u128_to_le_bytes(env.config_hash);
        let c = spec_u128_to_le_bytes(env.data_snapshot_id);
        let d = spec_u128_to_le_bytes(env.rng_master_seed);
        lemma_fnv1a_concat(FNV_OFFSET, a, b);
        lemma_fnv1a_concat(FNV_OFFSET, a + b, c);
        lemma_fnv1a_concat(FNV_OFFSET, a + b + c, d);
    }
    EnvRev(h.finish() as u128)
}

/// Environment revision that also covers per-dimension base steps, given as the
/// IEEE-754 bit patterns of the steps. Cache keys change when the geometry does.
pub fn env_rev_with_step_bits(env: &Env, step_bits: &[u64]) -> (r: EnvRev)
    ensures
        r.0 == fnv1a(env_bytes(*env) + u64s_le_bytes(step_bits@)) as u128,
{
    let mut h = Fnv1aHasher::new();
    h.write_u128(env.run_id);
    h.write_u128(env.config_hash);
    h.write_u128(env.data_snapshot_id);
    h.write_u128(env.rng_master_seed);
    h.write_u64s(step_bits);
    proof {
        let a = spec_u128_to_le_bytes(env.run_id);
        let b = spec_u128_to_le_bytes(env.config_hash);
        let c = spec_u128_to_le_bytes(env.data_snapshot_id);
        let d = spec_u128_to_le_bytes(env.rng_master_seed);
        lemma_fnv1a_concat(FNV_OFFSET, a, b);
        lemma_fnv1a_concat(FNV_OFFSET, a + b, c);
        lemma_fnv1a_concat(FNV_OFFSET, a + b + c, d);
        lemma_fnv1a_concat(FNV_OFFSET, a + b + c + d, u64s_le_bytes(step_bits@));
    }
    EnvRev(h.finish() as u128)
}

/// Stable digest of a mesh point: FNV-1a over its length and coordinates.
pub fn stable_hash_u64(x: &XMesh) -> (r: u64)
    ensures
        r == fnv1a(xmesh_bytes(x@)),
{
    let mut h = Fnv1aHasher::new();
    h.write_u64(x.0.len() as u64);
    h.write_i64s(x.0.as_slice());
    proof {
        lemma_fnv1a_concat(FNV_OFFSET, spec_u64_to_le_bytes(x@.len() as u64), i64s_le_bytes(x@));
    }
    h.finish()
}

/// Stable digest of a point in continuous coordinates, given as the IEEE-754 bit
/// patterns of its coordinates (with negative zero normalised to positive zero):
/// FNV-1a over the length and the bit patterns.
pub fn stable_hash_real_bits(bits: &[u64]) -> (r: u64)
    ensures
        r == fnv1a(spec_u64_to_le_bytes(bits@.len() as u64) + u64s_le_bytes(bits@)),
{
    let mut h = Fnv1aHasher::new();
    h.write_u64(bits.len() as u64);
    h.write_u64s(bits);
    proof {
        lemma_fnv1a_concat(FNV_OFFSET, spec_u64_to_le_bytes(bits@.len() as u64), u64s_le_bytes(bits@));
    }
    h.finish()
}

} // verus!
