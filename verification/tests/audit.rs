use imads::audit::{audit_key_hash, AuditGate};
use imads::hashing::env_rev;
use imads::types::{Env, Phi, Smc, Tau, XMesh};

fn rev() -> imads::types::EnvRev {
    env_rev(&Env { run_id: 1, config_hash: 2, data_snapshot_id: 3, rng_master_seed: 4 })
}

#[test]
fn default_gate_audits_two_percent_of_residues() {
    let g = AuditGate::default();
    assert_eq!(g.modulus, 10_000);
    assert_eq!(g.threshold, 200);
}

#[test]
fn gate_selects_by_digest_residue() {
    let g = AuditGate::default();
    let phi = Phi { tau: Tau(10), smc: Smc(16) };
    let mut selected = 0;
    for i in 0..2000i64 {
        let x = XMesh(vec![i, -i]);
        let h = audit_key_hash(&x, phi, rev());
        let s = g.should_audit(&x, phi, rev());
        assert_eq!(s, h % 10_000 < 200);
        // Deterministic: asking again gives the same verdict.
        assert_eq!(s, g.should_audit(&x, phi, rev()));
        if s {
            selected += 1;
        }
    }
    // Roughly two percent of 2000 keys.
    assert!(selected > 10 && selected < 90);
}

#[test]
fn gate_extremes_never_or_always_audit() {
    let never = AuditGate { modulus: 100, threshold: 0 };
    let always = AuditGate { modulus: 100, threshold: 100 };
    let phi = Phi { tau: Tau(1), smc: Smc(1) };
    for i in 0..50i64 {
        let x = XMesh(vec![i]);
        assert!(!never.should_audit(&x, phi, rev()));
        assert!(always.should_audit(&x, phi, rev()));
    }
}
