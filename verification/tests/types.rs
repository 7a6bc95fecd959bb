use imads::types::{CacheTag, CandidateId, EnvRev, Phi, PolicyRev, Smc, Tau, WorkItem, XMesh};

fn item(phi_idx: u32) -> WorkItem {
    WorkItem {
        cand_id: CandidateId(1),
        x: XMesh(vec![4, -2]),
        phi_idx,
        phi: Phi { tau: Tau(10), smc: Smc(8) },
        env_rev: EnvRev(77),
        policy_rev: PolicyRev(5),
        incumbent_id: 0,
    }
}

#[test]
fn cache_keys_carry_point_step_and_revisions() {
    let w = item(1);
    let e = w.eval_key();
    assert_eq!(e.x, XMesh(vec![4, -2]));
    assert_eq!(e.phi, w.phi);
    assert_eq!(e.env_rev, EnvRev(77));
    let d = w.decision_key(3);
    assert_eq!(d.x, XMesh(vec![4, -2]));
    assert_eq!(d.policy_rev, PolicyRev(5));
    assert_eq!(d.tag, CacheTag::Partial);
    assert_eq!(item(2).decision_key(3).tag, CacheTag::Truth);
    assert_eq!(item(2).cache_tag(3), CacheTag::Truth);
}

#[test]
fn mesh_point_copy_is_equal() {
    let x = XMesh(vec![1, 2, 3]);
    assert_eq!(x.duplicate(), x);
}
