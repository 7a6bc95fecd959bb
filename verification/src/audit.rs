//! Deterministic audit selection.
//!
//! A candidate cut early at a fidelity step is selected for a full audit when the
//! FNV-1a digest of `(stable_hash(x), phi, env_rev)` falls below a threshold modulo
//! a fixed modulus. The threshold is `p_audit * modulus`, computed by the caller
//! from the floating-point audit probability.

use vstd::prelude::*;
use vstd::bytes::{spec_u32_to_le_bytes, spec_u64_to_le_bytes, spec_u128_to_le_bytes};
use crate::hashing::{
    fnv1a, fnv1a_from, lemma_fnv1a_concat, phi_bytes, stable_hash_u64, xmesh_bytes, Fnv1aHasher,
    FNV_OFFSET,
};
use crate::types::{EnvRev, Phi, XMesh};

verus! {

/// Encoding of the audit key `(stable_hash(x), phi, env_rev)`.
pub open spec fn audit_key_bytes(x: Seq<i64>, phi: Phi, rev: EnvRev) -> Seq<u8> {
    spec_u64_to_le_bytes(fnv1a(xmesh_bytes(x))) + phi_bytes(phi) + spec_u128_to_le_bytes(rev.0)
}

/// Digest of the audit key of `x` at fidelity `phi` under environment revision `env_rev`.
pub fn audit_key_hash(x: &XMesh, phi: Phi, env_rev: EnvRev) -> (r: u64)
    ensures
        r == fnv1a(audit_key_bytes(x@, phi, env_rev)),
{
    let hx = stable_hash_u64(x);
    let mut h = Fnv1aHasher::new();
    h.write_u64(hx);
    h.write_u64(phi.tau.0);
    h.write_u32(phi.smc.0);
    h.write_u128(env_rev.0);
    proof {
        let a = spec_u64_to_le_bytes(hx);
        let b = spec_u64_to_le_bytes(phi.tau.0);
        let c = spec_u32_to_le_bytes(phi.smc.0);
        let d = spec_u128_to_le_bytes(env_rev.0);
        lemma_fnv1a_concat(FNV_OFFSET, a, b);
        lemma_fnv1a_concat(FNV_OFFSET, a + b, c);
        lemma_fnv1a_concat(FNV_OFFSET, a + b + c, d);
        assert(a + b + c + d =~= a + (b + c) + d);
    }
    h.finish()
}

/// Hash-based audit selector: audit when `digest % modulus < threshold`.
#[derive(Clone, Copy, Debug, PartialEq, Eq, Structural)]
pub struct AuditGate {
    /// Deterministic modulus.
    pub modulus: u64,
    /// Number of residues (out of `modulus`) that select an audit.
    pub threshold: u64,
}

/// Whether an audit selector picks a key with digest `h`.
pub open spec fn gate_selects(gate: AuditGate, h: u64) -> bool {
    h % gate.modulus < gate.threshold
}

impl Default for AuditGate {
    /// The default gate: modulus 10000 with an audit probability of 0.02.
    fn default() -> (r: AuditGate)
        ensures
            r.modulus == 10_000,
            r.threshold == 200,
    {
        AuditGate { modulus: 10_000, threshold: 200 }
    }
}

impl AuditGate {
    /// Whether the cut of `x` at `phi` under `env_rev` is selected for an audit.
    pub fn should_audit(&self, x: &XMesh, phi: Phi, env_rev: EnvRev) -> (r: bool)
        requires
            self.modulus > 0,
        ensures
            r == gate_selects(*self, fnv1a(audit_key_bytes(x@, phi, env_rev))),
    {
        let h = audit_key_hash(x, phi, env_rev);
        h % self.modulus < self.threshold
    }
}

/// A zero threshold never audits, and a threshold of at least the modulus always audits.
pub proof fn lemma_gate_extremes(gate: AuditGate, h: u64)
    requires
        gate.modulus > 0,
    ensures
        gate.threshold == 0 ==> !gate_selects(gate, h),
        gate.threshold >= gate.modulus ==> gate_selects(gate, h),
{
}

/// Raising the threshold never deselects a key.
pub proof fn lemma_gate_monotone(gate: AuditGate, threshold: u64, h: u64)
    requires
        gate.modulus > 0,
        gate.threshold <= threshold,
        gate_selects(gate, h),
    ensures
        gate_selects(AuditGate { modulus: gate.modulus, threshold }, h),
{
}

} // verus!
