//! The fidelity ladder: default levels, the staircase ladder, and the audit
//! checkpoints and pruning gate that read it.

use vstd::prelude::*;
use crate::types::{CandidateAuditOrigin, OriginView, Phi, Smc, Tau};

verus! {

broadcast use vstd::seq_lib::group_seq_properties;

// ----------------------------
// Paired (same-S, tighter-tau) checkpoints
// ----------------------------

/// Index `j` is a paired checkpoint of a cut at `cut`: it comes later in the ladder,
/// has the same sample count and a strictly tighter tolerance.
pub open spec fn is_paired_index(ladder: Seq<Phi>, cut: int, j: int) -> bool {
    &&& 0 <= cut < j < ladder.len()
    &&& ladder[j].smc == ladder[cut].smc
    &&& ladder[j].tau.0 < ladder[cut].tau.0
}

/// The paired checkpoints of a cut at `cut` among indices `j..`, in ladder order.
pub open spec fn paired_from(ladder: Seq<Phi>, cut: int, j: int) -> Seq<u32>
    decreases ladder.len() - j,
{
    if j >= ladder.len() || j < 0 {
        Seq::empty()
    } else if is_paired_index(ladder, cut, j) {
        seq![j as u32] + paired_from(ladder, cut, j + 1)
    } else {
        paired_from(ladder, cut, j + 1)
    }
}

/// All paired checkpoints of a cut at ladder index `cut`, in ladder order.
pub open spec fn paired_indices(ladder: Seq<Phi>, cut: int) -> Seq<u32> {
    if 0 <= cut < ladder.len() {
        paired_from(ladder, cut, cut + 1)
    } else {
        Seq::empty()
    }
}

proof fn lemma_paired_from_props(ladder: Seq<Phi>, cut: int, j: int)
    requires
        0 <= cut,
        0 <= j,
        ladder.len() <= u32::MAX,
    ensures
        forall|k: int| 0 <= k < paired_from(ladder, cut, j).len() ==> {
            let v = #[trigger] paired_from(ladder, cut, j)[k];
            &&& j <= v < ladder.len()
            &&& is_paired_index(ladder, cut, v as int)
        },
        forall|k1: int, k2: int| 0 <= k1 < k2 < paired_from(ladder, cut, j).len() ==>
            paired_from(ladder, cut, j)[k1] < paired_from(ladder, cut, j)[k2],
        forall|i: int| j <= i < ladder.len() && is_paired_index(ladder, cut, i) ==>
            paired_from(ladder, cut, j).contains(i as u32),
    decreases ladder.len() - j,
{
    if j >= ladder.len() {
    } else {
        lemma_paired_from_props(ladder, cut, j + 1);
        let rest = paired_from(ladder, cut, j + 1);
        if is_paired_index(ladder, cut, j) {
            let s = seq![j as u32] + rest;
            assert forall|i: int| j <= i < ladder.len() && is_paired_index(ladder, cut, i)
                implies s.contains(i as u32) by {
                if i == j {
                    assert(s[0] == i as u32);
                } else {
                    let k = choose|k: int| 0 <= k < rest.len() && rest[k] == i as u32;
                    assert(s[k + 1] == i as u32);
                }
            }
        }
    }
}

/// The paired checkpoints of a cut are exactly the later indices with the same sample
/// count and a tighter tolerance, each once, in strictly increasing order.
pub proof fn lemma_paired_indices_exact(ladder: Seq<Phi>, cut: int)
    requires
        ladder.len() <= u32::MAX,
    ensures
        forall|k: int| 0 <= k < paired_indices(ladder, cut).len() ==>
            is_paired_index(ladder, cut, #[trigger] paired_indices(ladder, cut)[k] as int),
        forall|k1: int, k2: int| 0 <= k1 < k2 < paired_indices(ladder, cut).len() ==>
            paired_indices(ladder, cut)[k1] < paired_indices(ladder, cut)[k2],
        forall|i: int| is_paired_index(ladder, cut, i) ==> paired_indices(ladder, cut).contains(i as u32),
{
    if 0 <= cut < ladder.len() {
        lemma_paired_from_props(ladder, cut, cut + 1);
    }
}

/// Collect the same-S, tighter-tau checkpoints that follow a cut at `cut_idx`.
pub fn collect_paired_phi_indices(ladder: &[Phi], cut_idx: u32) -> (r: Vec<u32>)
    requires
        ladder@.len() <= u32::MAX,
    ensures
        r@ == paired_indices(ladder@, cut_idx as int),
{
    let i = cut_idx as usize;
    let n = ladder.len();
    let mut out: Vec<u32> = Vec::new();
    if i >= n {
        return out;
    }
    let cur = ladder[i];
    let mut j: usize = i + 1;
    while j < n
        invariant
            n == ladder@.len(),
            n <= u32::MAX,
            i < n,
            cur == ladder@[i as int],
            i + 1 <= j <= n,
            out@ + paired_from(ladder@, i as int, j as int) == paired_from(ladder@, i as int, i as int + 1),
        decreases n - j,
    {
        let p = ladder[j];
        if p.smc.0 == cur.smc.0 && p.tau.0 < cur.tau.0 {
            proof {
                assert(paired_from(ladder@, i as int, j as int)
                    == seq![j as u32] + paired_from(ladder@, i as int, j + 1));
                assert(out@.push(j as u32) + paired_from(ladder@, i as int, j + 1)
                    =~= out@ + paired_from(ladder@, i as int, j as int));
            }
            out.push(j as u32);
        }
        j = j + 1;
    }
    proof {
        assert(paired_from(ladder@, i as int, n as int) =~= Seq::empty());
        assert(out@ + Seq::<u32>::empty() =~= out@);
    }
    out
}

/// Whether `phi_idx` is one of the paired checkpoints of an audit origin.
pub fn is_paired_checkpoint(origin: Option<&CandidateAuditOrigin>, phi_idx: u32) -> (r: bool)
    ensures
        r == match origin {
            Some(o) => o.paired_phi_indices@.contains(phi_idx),
            None => false,
        },
{
    match origin {
        None => false,
        Some(o) => {
            let n = o.paired_phi_indices.len();
            let mut k: usize = 0;
            while k < n
                invariant
                    origin == Some(o),
                    n == o.paired_phi_indices@.len(),
                    k <= n,
                    forall|t: int| 0 <= t < k ==> o.paired_phi_indices@[t] != phi_idx,
                decreases n - k,
            {
                if o.paired_phi_indices[k] == phi_idx {
                    assert(o.paired_phi_indices@[k as int] == phi_idx);
                    return true;
                }
                k = k + 1;
            }
            false
        },
    }
}

/// The first element of `s`, in order, that is greater than `cur`.
pub open spec fn first_above(s: Seq<u32>, cur: u32) -> Option<u32>
    decreases s.len(),
{
    if s.len() == 0 {
        None
    } else if s[0] > cur {
        Some(s[0])
    } else {
        first_above(s.drop_first(), cur)
    }
}

/// Where an audit path goes after index `current`: the next paired checkpoint, else
/// the last ladder index (the truth step).
pub open spec fn audit_target(origin: Option<OriginView>, current: u32, ladder_len: int) -> u32 {
    if ladder_len == 0 {
        0
    } else {
        match origin {
            Some(o) => match first_above(o.paired_phi_indices, current) {
                Some(v) => v,
                None => (ladder_len - 1) as u32,
            },
            None => (ladder_len - 1) as u32,
        }
    }
}

/// The next ladder index an audited candidate should visit.
pub fn next_audit_target_idx(origin: Option<&CandidateAuditOrigin>, current_idx: u32, ladder_len: usize) -> (r: u32)
    ensures
        r == audit_target(
            match origin { Some(o) => Some(o@), None => None },
            current_idx,
            ladder_len as int,
        ),
{
    if ladder_len == 0 {
        return 0;
    }
    if let Some(o) = origin {
        let n = o.paired_phi_indices.len();
        let mut k: usize = 0;
        while k < n
            invariant
                origin == Some(o),
                ladder_len > 0,
                n == o.paired_phi_indices@.len(),
                k <= n,
                first_above(o.paired_phi_indices@, current_idx)
                    == first_above(o.paired_phi_indices@.subrange(k as int, n as int), current_idx),
            decreases n - k,
        {
            let idx = o.paired_phi_indices[k];
            proof {
                let t = o.paired_phi_indices@.subrange(k as int, n as int);
                assert(t[0] == idx);
                assert(t.drop_first() =~= o.paired_phi_indices@.subrange(k + 1, n as int));
            }
            if idx > current_idx {
                proof {
                    let t = o.paired_phi_indices@.subrange(k as int, n as int);
                    assert(first_above(t, current_idx) == Some(idx));
                }
                return idx;
            }
            k = k + 1;
        }
        proof {
            assert(o.paired_phi_indices@.subrange(n as int, n as int) =~= Seq::<u32>::empty());
            assert(first_above(o.paired_phi_indices@, current_idx) == None::<u32>);
        }
    }
    (ladder_len - 1) as u32
}

/// When `first_above` finds a value, it is greater than `cur`, it occurs in `s`, and
/// every element before its position is at most `cur`; when it finds none, no element
/// of `s` is greater than `cur`.
pub proof fn lemma_first_above(s: Seq<u32>, cur: u32)
    ensures
        match first_above(s, cur) {
            Some(v) => v > cur && s.contains(v) && exists|i: int| #![trigger s[i]]
                0 <= i < s.len() && s[i] == v && forall|k: int| 0 <= k < i ==> s[k] <= cur,
            None => forall|k: int| 0 <= k < s.len() ==> s[k] <= cur,
        },
    decreases s.len(),
{
    if s.len() > 0 {
        lemma_first_above(s.drop_first(), cur);
        if s[0] <= cur {
            match first_above(s.drop_first(), cur) {
                Some(v) => {
                    let t = s.drop_first();
                    let i = choose|i: int| #![trigger t[i]]
                        0 <= i < t.len() && t[i] == v && forall|k: int| 0 <= k < i ==> t[k] <= cur;
                    assert(s[i + 1] == v);
                    assert forall|k: int| 0 <= k < i + 1 implies s[k] <= cur by {
                        if k > 0 {
                            assert(s[k] == t[k - 1]);
                        }
                    }
                },
                None => {
                    assert forall|k: int| 0 <= k < s.len() implies s[k] <= cur by {
                        if k > 0 {
                            assert(s[k] == s.drop_first()[k - 1]);
                        }
                    }
                },
            }
        } else {
            assert(s[0] == s[0]);
        }
    }
}

/// An audit path always moves forward: from any index before the last one, the next
/// target is later in the ladder and still inside it, provided the origin's checkpoints
/// lie inside the ladder.
pub proof fn lemma_audit_target_advances(origin: Option<OriginView>, current: u32, ladder_len: int)
    requires
        0 < ladder_len <= u32::MAX,
        current < ladder_len - 1,
        match origin {
            Some(o) => forall|k: int| 0 <= k < o.paired_phi_indices.len() ==> #[trigger] o.paired_phi_indices[k] < ladder_len,
            None => true,
        },
    ensures
        current < audit_target(origin, current, ladder_len) < ladder_len,
{
    match origin {
        Some(o) => {
            lemma_first_above(o.paired_phi_indices, current);
        },
        None => {},
    }
}

// ----------------------------
// Objective pruning gate
// ----------------------------

/// Configuration of the objective pruning gate.
#[derive(Clone, Copy, Debug, PartialEq, Eq, Structural)]
pub struct PruneGate {
    /// 1-based rank among distinct SMC levels required before objective pruning is allowed.
    pub min_smc_rank: usize,
    /// Minimum 1-based ladder level before objective pruning is allowed.
    pub min_level: usize,
    /// If true, objective pruning is additionally restricted to the back half of the ladder.
    pub require_back_half: bool,
    /// If true, audit-required candidates bypass objective pruning.
    pub disable_for_audit: bool,
}

/// The distinct sample counts that occur in a ladder.
pub open spec fn smc_set(ladder: Seq<Phi>) -> Set<u32> {
    ladder.map_values(|p: Phi| p.smc.0).to_set()
}

/// The distinct sample counts of a ladder that are at most `v`.
pub open spec fn smc_set_at_most(ladder: Seq<Phi>, v: u32) -> Set<u32> {
    smc_set(ladder).filter(|s: u32| s <= v)
}

/// Objective pruning is allowed at ladder index `phi_idx` when: the index is inside the
/// ladder; the candidate is not audit-exempt; the 1-based level reaches `min_level`; the
/// step's sample count ranks at least `min_smc_rank` among the ladder's distinct sample
/// counts (or is the largest of them, when there are fewer); and, if asked, the level
/// lies in the back half of the ladder.
pub open spec fn pruning_allowed(phi_idx: int, ladder: Seq<Phi>, audit_required: bool, gate: PruneGate) -> bool {
    let rank = if gate.min_smc_rank < 1 { 1 } else { gate.min_smc_rank as int };
    let level = phi_idx + 1;
    let min_level = if gate.min_level < 1 { 1 } else { gate.min_level as int };
    let mid = ladder.len() / 2 + 1;
    let back = if mid < 2 { 2 } else { mid };
    &&& 0 <= phi_idx < ladder.len()
    &&& !(audit_required && gate.disable_for_audit)
    &&& level >= min_level
    &&& smc_set_at_most(ladder, ladder[phi_idx].smc.0).len() >= if rank < smc_set(ladder).len() { rank } else { smc_set(ladder).len() as int }
    &&& (gate.require_back_half ==> level >= back)
}

/// Distinct values of `vals@` (in first-occurrence order) that satisfy `v <= bound`,
/// or all of them when `bound` is `None`.
fn distinct_smc(ladder: &[Phi], bound: Option<u32>) -> (r: Vec<u32>)
    ensures
        r@.no_duplicates(),
        r@.to_set() == match bound {
            Some(b) => smc_set_at_most(ladder@, b),
            None => smc_set(ladder@),
        },
{
    let n = ladder.len();
    let mut out: Vec<u32> = Vec::new();
    let mut i: usize = 0;
    let ghost vals = ladder@.map_values(|p: Phi| p.smc.0);
    while i < n
        invariant
            n == ladder@.len(),
            i <= n,
            vals == ladder@.map_values(|p: Phi| p.smc.0),
            out@.no_duplicates(),
            forall|v: u32| out@.contains(v) <==> (vals.take(i as int).contains(v) && match bound {
                Some(b) => v <= b,
                None => true,
            }),
        decreases n - i,
    {
        let v = ladder[i].smc.0;
        let keep = match bound {
            Some(b) => v <= b,
            None => true,
        };
        let mut present = false;
        let m = out.len();
        let mut k: usize = 0;
        while k < m
            invariant
                m == out@.len(),
                k <= m,
                present <==> exists|t: int| 0 <= t < k && out@[t] == v,
            decreases m - k,
        {
            if out[k] == v {
                present = true;
            }
            k = k + 1;
        }
        proof {
            assert(vals.take(i + 1) =~= vals.take(i as int).push(v));
        }
        if keep && !present {
            proof {
                assert(!out@.contains(v));
            }
            out.push(v);
        }
        proof {
            let pre = vals.take(i as int);
            let post = vals.take(i + 1);
            assert forall|w: u32| out@.contains(w) <==> (post.contains(w) && match bound {
                Some(b) => w <= b,
                None => true,
            }) by {
                if post.contains(w) && w != v {
                    let t = choose|t: int| 0 <= t < post.len() && #[trigger] post[t] == w;
                    assert(t < i);
                    assert(pre[t] == w);
                }
                if pre.contains(w) {
                    let t = choose|t: int| 0 <= t < pre.len() && #[trigger] pre[t] == w;
                    assert(post[t] == w);
                }
                if w == v {
                    assert(post[i as int] == v);
                }
            }
        }
        i = i + 1;
    }
    proof {
        assert(vals.take(n as int) =~= vals);
        let target = match bound {
            Some(b) => smc_set_at_most(ladder@, b),
            None => smc_set(ladder@),
        };
        assert(out@.to_set() =~= target);
    }
    out
}

/// Ladder-aware and SMC-aware gate for objective pruning.
pub fn objective_pruning_allowed(phi_idx: usize, ladder: &[Phi], audit_required: bool, gate: &PruneGate) -> (r: bool)
    ensures
        r == pruning_allowed(phi_idx as int, ladder@, audit_required, *gate),
{
    if ladder.len() == 0 || phi_idx >= ladder.len() {
        return false;
    }
    if audit_required && gate.disable_for_audit {
        return false;
    }
    let level = phi_idx + 1;
    let min_level: usize = if gate.min_level < 1 { 1 } else { gate.min_level };
    if level < min_level {
        return false;
    }
    let current = ladder[phi_idx];
    let all = distinct_smc(ladder, None);
    let below = distinct_smc(ladder, Some(current.smc.0));
    proof {
        all@.unique_seq_to_set();
        below@.unique_seq_to_set();
    }
    let rank: usize = if gate.min_smc_rank < 1 { 1 } else { gate.min_smc_rank };
    let need: usize = if rank < all.len() { rank } else { all.len() };
    if below.len() < need {
        return false;
    }
    if gate.require_back_half {
        let mid = ladder.len() / 2 + 1;
        let back: usize = if mid < 2 { 2 } else { mid };
        if level < back {
            return false;
        }
    }
    true
}


/// The back-half restriction of objective pruning. With `require_back_half`, pruning at
/// ladder index `phi_idx` is allowed exactly when it is allowed without the restriction
/// and the step lies in the back half of the ladder: it is not the first step, and no
/// more steps follow it than precede it (`len - 1 - phi_idx <= phi_idx`). So on a
/// ladder of 5 steps, indices 2, 3 and 4 (levels 3 to 5) qualify.
pub proof fn lemma_pruning_back_half(phi_idx: int, ladder: Seq<Phi>, audit_required: bool, gate: PruneGate)
    requires
        gate.require_back_half,
    ensures
        pruning_allowed(phi_idx, ladder, audit_required, gate) == (
            pruning_allowed(phi_idx, ladder, audit_required, PruneGate { require_back_half: false, ..gate })
            && phi_idx >= 1
            && ladder.len() - 1 - phi_idx <= phi_idx
        ),
{
}

/// What an allowed objective prune guarantees, and when it is owed. Pruning at index
/// `phi_idx` is allowed exactly when: the index lies in the ladder; the candidate is
/// not audit-required under a gate that exempts audits; the index is at least
/// `min_level - 1` (levels count from 1, a minimum of 0 counts as 1); at least
/// `min(min_smc_rank, number of distinct sample counts)` distinct sample counts of the
/// ladder are at most the step's own (a rank of 0 counts as 1); and, under
/// `require_back_half`, the step is a later one with no more steps after it than before.
pub proof fn lemma_pruning_allowed_exact(phi_idx: int, ladder: Seq<Phi>, audit_required: bool, gate: PruneGate)
    ensures
        pruning_allowed(phi_idx, ladder, audit_required, gate) == {
            &&& 0 <= phi_idx < ladder.len()
            &&& (gate.disable_for_audit ==> !audit_required)
            &&& phi_idx >= gate.min_level - 1
            &&& (0 <= phi_idx < ladder.len() ==> {
                let distinct = smc_set(ladder).len();
                let wanted = if gate.min_smc_rank == 0 { 1 } else { gate.min_smc_rank as int };
                smc_set(ladder).filter(|v: u32| v <= ladder[phi_idx].smc.0).len() >= if wanted <= distinct { wanted } else { distinct as int }
            })
            &&& (gate.require_back_half ==> phi_idx >= 1 && ladder.len() <= 2 * phi_idx + 1)
        },
{
    assert(smc_set_at_most(ladder, ladder[phi_idx].smc.0) == smc_set(ladder).filter(|v: u32| v <= ladder[phi_idx].smc.0));
}
} // verus!

verus! {

// ----------------------------
// Default levels
// ----------------------------

/// Default tolerance ladder (loose to tight); high-dimensional problems get one extra
/// very loose level.
pub open spec fn default_taus(dim: int) -> Seq<Tau> {
    if dim >= 64 {
        seq![Tau(1000), Tau(100), Tau(10), Tau(1)]
    } else {
        seq![Tau(100), Tau(10), Tau(1)]
    }
}

/// Base sample count for a dimension.
pub open spec fn smc_base(dim: int) -> u32 {
    if dim <= 8 { 8 } else if dim <= 32 { 16 } else { 32 }
}

/// Default sample-count ladder (low to high): base, 4x base, 16x base.
pub open spec fn default_smcs(dim: int) -> Seq<Smc> {
    let b = smc_base(dim);
    seq![Smc(b), Smc((4 * b) as u32), Smc((16 * b) as u32)]
}

/// Default tolerance levels for a problem of dimension `dim`.
pub fn default_tau_levels(dim: usize) -> (r: Vec<Tau>)
    ensures
        r@ == default_taus(dim as int),
        dim < 64 ==> r@ == seq![Tau(100), Tau(10), Tau(1)],
        dim >= 64 ==> r@ == seq![Tau(1000), Tau(100), Tau(10), Tau(1)],
{
    if dim >= 64 {
        let r = vec![Tau(1000), Tau(100), Tau(10), Tau(1)];
        assert(r@ =~= default_taus(dim as int));
        r
    } else {
        let r = vec![Tau(100), Tau(10), Tau(1)];
        assert(r@ =~= default_taus(dim as int));
        r
    }
}

/// Default sample-count levels for a problem of dimension `dim` (dimension 0 counts as 1).
pub fn default_smc_levels(dim: usize) -> (r: Vec<Smc>)
    ensures
        r@ == default_smcs(dim as int),
        dim <= 8 ==> r@ == seq![Smc(8), Smc(32), Smc(128)],
        8 < dim <= 32 ==> r@ == seq![Smc(16), Smc(64), Smc(256)],
        dim > 32 ==> r@ == seq![Smc(32), Smc(128), Smc(512)],
{
    let d: usize = if dim < 1 { 1 } else { dim };
    let base: u32 = if d <= 8 { 8 } else if d <= 32 { 16 } else { 32 };
    // base * 4 and mid * 4 never saturate and always exceed their predecessor.
    let mid: u32 = base * 4;
    let high: u32 = mid * 4;
    let r = vec![Smc(base), Smc(mid), Smc(high)];
    assert(r@ =~= default_smcs(dim as int));
    r
}

/// Default tolerance levels by dimension: every problem of dimension below 64 gets the
/// three levels 100, 10, 1; from dimension 64 on an extra, looser level 1000 comes first.
pub proof fn lemma_default_taus_by_dimension(dim: int)
    ensures
        dim < 64 ==> default_taus(dim) == seq![Tau(100), Tau(10), Tau(1)],
        dim >= 64 ==> default_taus(dim) == seq![Tau(1000), Tau(100), Tau(10), Tau(1)],
        default_taus(dim).last() == Tau(1),
        forall|i: int, k: int| 0 <= i < k < default_taus(dim).len() ==> default_taus(dim)[k].0 < default_taus(dim)[i].0,
{
}

/// Default sample-count levels by dimension: 8, 32, 128 up to dimension 8; 16, 64, 256
/// for dimensions 9 to 32; 32, 128, 512 above. Each level is four times the previous.
pub proof fn lemma_default_smcs_by_dimension(dim: int)
    ensures
        dim <= 8 ==> default_smcs(dim) == seq![Smc(8), Smc(32), Smc(128)],
        8 < dim <= 32 ==> default_smcs(dim) == seq![Smc(16), Smc(64), Smc(256)],
        dim > 32 ==> default_smcs(dim) == seq![Smc(32), Smc(128), Smc(512)],
        default_smcs(dim).len() == 3,
        default_smcs(dim)[1].0 == 4 * default_smcs(dim)[0].0,
        default_smcs(dim)[2].0 == 4 * default_smcs(dim)[1].0,
{
}

/// The tolerance levels a run uses: the configured ones (or the defaults when none are
/// configured), without zero levels, and `[1]` when nothing is left.
pub open spec fn resolved_taus(cfg: Seq<Tau>, dim: int) -> Seq<Tau> {
    let base = if cfg.len() == 0 { default_taus(dim) } else { cfg };
    let kept = base.filter(|t: Tau| t.0 > 0);
    if kept.len() == 0 { seq![Tau(1)] } else { kept }
}

/// The sample-count levels a run uses, by the same rule as `resolved_taus`.
pub open spec fn resolved_smcs(cfg: Seq<Smc>, dim: int) -> Seq<Smc> {
    let base = if cfg.len() == 0 { default_smcs(dim) } else { cfg };
    let kept = base.filter(|s: Smc| s.0 > 0);
    if kept.len() == 0 { seq![Smc(1)] } else { kept }
}

fn keep_positive_taus(v: &Vec<Tau>) -> (r: Vec<Tau>)
    ensures
        r@ == v@.filter(|t: Tau| t.0 > 0),
{
    let mut out: Vec<Tau> = Vec::new();
    let n = v.len();
    let mut i: usize = 0;
    while i < n
        invariant
            n == v@.len(),
            i <= n,
            out@ == v@.take(i as int).filter(|t: Tau| t.0 > 0),
        decreases n - i,
    {
        let t = v[i];
        proof {
            assert(v@.take(i + 1) =~= v@.take(i as int).push(t));
            v@.take(i as int).lemma_filter_push(t, |t: Tau| t.0 > 0);
        }
        if t.0 > 0 {
            out.push(t);
        }
        i = i + 1;
    }
    assert(v@.take(n as int) =~= v@);
    out
}

fn keep_positive_smcs(v: &Vec<Smc>) -> (r: Vec<Smc>)
    ensures
        r@ == v@.filter(|s: Smc| s.0 > 0),
{
    let mut out: Vec<Smc> = Vec::new();
    let n = v.len();
    let mut i: usize = 0;
    while i < n
        invariant
            n == v@.len(),
            i <= n,
            out@ == v@.take(i as int).filter(|s: Smc| s.0 > 0),
        decreases n - i,
    {
        let s = v[i];
        proof {
            assert(v@.take(i + 1) =~= v@.take(i as int).push(s));
            v@.take(i as int).lemma_filter_push(s, |s: Smc| s.0 > 0);
        }
        if s.0 > 0 {
            out.push(s);
        }
        i = i + 1;
    }
    assert(v@.take(n as int) =~= v@);
    out
}

/// Resolve the tolerance and sample-count levels of a run of dimension `dim`.
pub fn resolve_ladder_levels(tau_levels: &Vec<Tau>, smc_levels: &Vec<Smc>, dim: usize) -> (r: (Vec<Tau>, Vec<Smc>))
    ensures
        r.0@ == resolved_taus(tau_levels@, dim as int),
        r.1@ == resolved_smcs(smc_levels@, dim as int),
        r.0@.len() > 0,
        r.1@.len() > 0,
{
    let taus = if tau_levels.len() == 0 { default_tau_levels(dim) } else { tau_levels.clone() };
    let smcs = if smc_levels.len() == 0 { default_smc_levels(dim) } else { smc_levels.clone() };
    let mut tau = keep_positive_taus(&taus);
    let mut smc = keep_positive_smcs(&smcs);
    if tau.len() == 0 {
        tau.push(Tau(1));
        assert(tau@ =~= seq![Tau(1)]);
    }
    if smc.len() == 0 {
        smc.push(Smc(1));
        assert(smc@ =~= seq![Smc(1)]);
    }
    (tau, smc)
}

// ----------------------------
// Staircase ladder
// ----------------------------

/// Tolerance order used by the ladder: loose (large) first.
pub open spec fn tau_desc() -> spec_fn(Tau, Tau) -> bool {
    |a: Tau, b: Tau| a.0 >= b.0
}

/// Sample-count order used by the ladder: small first.
pub open spec fn smc_asc() -> spec_fn(Smc, Smc) -> bool {
    |a: Smc, b: Smc| a.0 <= b.0
}

/// Position in the sorted tolerance levels of ladder element `k`.
pub open spec fn stair_tau_idx(nt: int, ns: int, k: int) -> int {
    let m = if nt < ns { nt - 1 } else { ns - 1 };
    if k <= 2 * m { k / 2 } else if nt > ns { k - m } else { m }
}

/// Position in the sorted sample-count levels of ladder element `k`.
pub open spec fn stair_smc_idx(nt: int, ns: int, k: int) -> int {
    let m = if nt < ns { nt - 1 } else { ns - 1 };
    if k <= 2 * m { (k + 1) / 2 } else if nt > ns { m } else { k - m }
}

/// The staircase over sorted levels `ts` (loose to tight) and `ss` (low to high):
/// start at the loosest, cheapest step, then alternately raise the sample count and
/// tighten the tolerance, continuing with the remaining kind once one is exhausted.
pub open spec fn staircase(ts: Seq<Tau>, ss: Seq<Smc>) -> Seq<Phi> {
    let nt = ts.len() as int;
    let ns = ss.len() as int;
    Seq::new((nt + ns - 1) as nat, |k: int| Phi {
        tau: ts[stair_tau_idx(nt, ns, k)],
        smc: ss[stair_smc_idx(nt, ns, k)],
    })
}

proof fn lemma_tau_desc_total()
    ensures
        vstd::relations::total_ordering(tau_desc()),
{
    assert forall|a: Tau, b: Tau| #[trigger] (tau_desc())(a, b) && (tau_desc())(b, a) implies a == b by {
        assert(a.0 == b.0);
    }
}

proof fn lemma_smc_asc_total()
    ensures
        vstd::relations::total_ordering(smc_asc()),
{
    assert forall|a: Smc, b: Smc| #[trigger] (smc_asc())(a, b) && (smc_asc())(b, a) implies a == b by {
        assert(a.0 == b.0);
    }
}

/// Sort tolerance levels from loose (large) to tight (small).
fn sort_taus_desc(v: &[Tau]) -> (r: Vec<Tau>)
    ensures
        r@ == v@.sort_by(tau_desc()),
{
    broadcast use vstd::seq_lib::to_multiset_insert;
    let mut out: Vec<Tau> = Vec::new();
    let n = v.len();
    let mut i: usize = 0;
    while i < n
        invariant
            n == v@.len(),
            i <= n,
            vstd::relations::sorted_by(out@, tau_desc()),
            out@.to_multiset() == v@.take(i as int).to_multiset(),
        decreases n - i,
    {
        let x = v[i];
        let m = out.len();
        let mut p: usize = 0;
        while p < m && out[p].0 >= x.0
            invariant
                m == out@.len(),
                p <= m,
                forall|q: int| 0 <= q < p ==> out@[q].0 >= x.0,
            decreases m - p,
        {
            p = p + 1;
        }
        let ghost before = out@;
        out.insert(p, x);
        proof {
            assert(forall|q: int| p <= q < m ==> before[q].0 < x.0) by {
                if p < m {
                    assert(before[p as int].0 < x.0);
                    assert forall|q: int| p <= q < m implies before[q].0 < x.0 by {
                        assert((tau_desc())(before[p as int], before[q]) || q == p);
                    }
                }
            }
            assert forall|a: int, b: int| 0 <= a < b < out@.len() implies #[trigger] (tau_desc())(out@[a], out@[b]) by {
                if b < p {
                    assert((tau_desc())(before[a], before[b]));
                } else if a < p && b == p {
                } else if a < p {
                    assert((tau_desc())(before[a], before[b - 1]));
                } else if a == p {
                } else {
                    assert((tau_desc())(before[a - 1], before[b - 1]));
                }
            }
            assert(v@.take(i + 1) =~= v@.take(i as int).push(x));
            vstd::seq_lib::to_multiset_build(v@.take(i as int), x);
        }
        i = i + 1;
    }
    proof {
        assert(v@.take(n as int) =~= v@);
        lemma_tau_desc_total();
        v@.lemma_sort_by_ensures(tau_desc());
        vstd::seq_lib::lemma_sorted_unique(out@, v@.sort_by(tau_desc()), tau_desc());
    }
    out
}

/// Sort sample-count levels from low to high.
fn sort_smcs_asc(v: &[Smc]) -> (r: Vec<Smc>)
    ensures
        r@ == v@.sort_by(smc_asc()),
{
    broadcast use vstd::seq_lib::to_multiset_insert;
    let mut out: Vec<Smc> = Vec::new();
    let n = v.len();
    let mut i: usize = 0;
    while i < n
        invariant
            n == v@.len(),
            i <= n,
            vstd::relations::sorted_by(out@, smc_asc()),
            out@.to_multiset() == v@.take(i as int).to_multiset(),
        decreases n - i,
    {
        let x = v[i];
        let m = out.len();
        let mut p: usize = 0;
        while p < m && out[p].0 <= x.0
            invariant
                m == out@.len(),
                p <= m,
                forall|q: int| 0 <= q < p ==> out@[q].0 <= x.0,
            decreases m - p,
        {
            p = p + 1;
        }
        let ghost before = out@;
        out.insert(p, x);
        proof {
            assert(forall|q: int| p <= q < m ==> before[q].0 > x.0) by {
                if p < m {
                    assert(before[p as int].0 > x.0);
                    assert forall|q: int| p <= q < m implies before[q].0 > x.0 by {
                        assert((smc_asc())(before[p as int], before[q]) || q == p);
                    }
                }
            }
            assert forall|a: int, b: int| 0 <= a < b < out@.len() implies #[trigger] (smc_asc())(out@[a], out@[b]) by {
                if b < p {
                    assert((smc_asc())(before[a], before[b]));
                } else if a < p && b == p {
                } else if a < p {
                    assert((smc_asc())(before[a], before[b - 1]));
                } else if a == p {
                } else {
                    assert((smc_asc())(before[a - 1], before[b - 1]));
                }
            }
            assert(v@.take(i + 1) =~= v@.take(i as int).push(x));
            vstd::seq_lib::to_multiset_build(v@.take(i as int), x);
        }
        i = i + 1;
    }
    proof {
        assert(v@.take(n as int) =~= v@);
        lemma_smc_asc_total();
        v@.lemma_sort_by_ensures(smc_asc());
        vstd::seq_lib::lemma_sorted_unique(out@, v@.sort_by(smc_asc()), smc_asc());
    }
    out
}

/// Default ladder policy: a staircase.
/// Example: (tau1,S1)->(tau1,S2)->(tau2,S2)->...
#[derive(Clone, Copy, Debug, Default)]
pub struct StaircaseLadder;

impl StaircaseLadder {
    /// Build the staircase over the given levels, sorted loose-to-tight and low-to-high.
    pub fn build_ladder(&self, tau_levels: &[Tau], smc_levels: &[Smc]) -> (r: Vec<Phi>)
        requires
            tau_levels@.len() > 0,
            smc_levels@.len() > 0,
            tau_levels@.len() + smc_levels@.len() <= usize::MAX,
        ensures
            r@ == staircase(tau_levels@.sort_by(tau_desc()), smc_levels@.sort_by(smc_asc())),
    {
        let tau = sort_taus_desc(tau_levels);
        let smc = sort_smcs_asc(smc_levels);
        proof {
            lemma_tau_desc_total();
            lemma_smc_asc_total();
            tau_levels@.lemma_sort_by_ensures(tau_desc());
            smc_levels@.lemma_sort_by_ensures(smc_asc());
            tau_levels@.to_multiset_ensures();
            tau@.to_multiset_ensures();
            smc_levels@.to_multiset_ensures();
            smc@.to_multiset_ensures();
        }
        let nt = tau.len();
        let ns = smc.len();
        let ghost target = staircase(tau@, smc@);
        let mut ladder: Vec<Phi> = Vec::new();
        let mut i_tau: usize = 0;
        let mut i_s: usize = 0;
        ladder.push(Phi { tau: tau[i_tau], smc: smc[i_s] });
        while i_tau + 1 < nt || i_s + 1 < ns
            invariant
                nt == tau@.len(),
                ns == smc@.len(),
                nt > 0,
                ns > 0,
                nt + ns <= usize::MAX,
                target == staircase(tau@, smc@),
                i_tau < nt,
                i_s < ns,
                ladder@.len() == i_tau + i_s + 1,
                i_tau == stair_tau_idx(nt as int, ns as int, ladder@.len() - 1),
                i_s == stair_smc_idx(nt as int, ns as int, ladder@.len() - 1),
                i_tau == i_s || i_tau + 1 == nt || i_s + 1 == ns,
                forall|k: int| 0 <= k < ladder@.len() ==> #[trigger] ladder@[k] == target[k],
            decreases nt + ns - i_tau - i_s,
        {
            if i_s + 1 < ns {
                i_s = i_s + 1;
                ladder.push(Phi { tau: tau[i_tau], smc: smc[i_s] });
                assert(ladder@[ladder@.len() - 1] == target[ladder@.len() - 1]);
            }
            if i_tau + 1 < nt {
                i_tau = i_tau + 1;
                ladder.push(Phi { tau: tau[i_tau], smc: smc[i_s] });
                assert(ladder@[ladder@.len() - 1] == target[ladder@.len() - 1]);
            }
        }
        assert(ladder@ =~= target);
        ladder
    }
}

/// A staircase over sorted levels never loosens the tolerance and never lowers the
/// sample count as it climbs.
pub proof fn lemma_staircase_monotone(ts: Seq<Tau>, ss: Seq<Smc>, a: int, b: int)
    requires
        ts.len() > 0,
        ss.len() > 0,
        vstd::relations::sorted_by(ts, tau_desc()),
        vstd::relations::sorted_by(ss, smc_asc()),
        0 <= a <= b < staircase(ts, ss).len(),
    ensures
        staircase(ts, ss)[a].tau.0 >= staircase(ts, ss)[b].tau.0,
        staircase(ts, ss)[a].smc.0 <= staircase(ts, ss)[b].smc.0,
{
    let nt = ts.len() as int;
    let ns = ss.len() as int;
    let ta = stair_tau_idx(nt, ns, a);
    let tb = stair_tau_idx(nt, ns, b);
    let sa = stair_smc_idx(nt, ns, a);
    let sb = stair_smc_idx(nt, ns, b);
    assert(0 <= ta <= tb < nt);
    assert(0 <= sa <= sb < ns);
    if ta < tb {
        assert((tau_desc())(ts[ta], ts[tb]));
    }
    if sa < sb {
        assert((smc_asc())(ss[sa], ss[sb]));
    }
}

/// The staircase has one step per level of each kind, less the shared first step; it
/// starts at the loosest tolerance and lowest sample count and ends at the tightest
/// tolerance and highest sample count.
pub proof fn lemma_staircase_ends(ts: Seq<Tau>, ss: Seq<Smc>)
    requires
        ts.len() > 0,
        ss.len() > 0,
    ensures
        staircase(ts, ss).len() == ts.len() + ss.len() - 1,
        staircase(ts, ss)[0] == (Phi { tau: ts[0], smc: ss[0] }),
        staircase(ts, ss)[ts.len() + ss.len() - 2] == (Phi { tau: ts.last(), smc: ss.last() }),
{
}

/// Each step of the staircase advances exactly one of the two sorted indices by one:
/// neither index decreases and their sum grows by one. Both stay inside their levels.
pub proof fn lemma_staircase_steps(nt: int, ns: int, k: int)
    requires
        nt > 0,
        ns > 0,
        0 <= k,
        k + 1 < nt + ns - 1,
    ensures
        stair_tau_idx(nt, ns, k + 1) + stair_smc_idx(nt, ns, k + 1) == stair_tau_idx(nt, ns, k) + stair_smc_idx(nt, ns, k) + 1,
        stair_tau_idx(nt, ns, k) <= stair_tau_idx(nt, ns, k + 1),
        stair_smc_idx(nt, ns, k) <= stair_smc_idx(nt, ns, k + 1),
        0 <= stair_tau_idx(nt, ns, k + 1) < nt,
        0 <= stair_smc_idx(nt, ns, k + 1) < ns,
{
}

/// The ladder depends only on which levels are given, not on their order: inputs with
/// the same multisets of levels give the same staircase.
pub proof fn lemma_staircase_order_independent(t1: Seq<Tau>, t2: Seq<Tau>, s1: Seq<Smc>, s2: Seq<Smc>)
    requires
        t1.to_multiset() == t2.to_multiset(),
        s1.to_multiset() == s2.to_multiset(),
    ensures
        staircase(t1.sort_by(tau_desc()), s1.sort_by(smc_asc())) == staircase(t2.sort_by(tau_desc()), s2.sort_by(smc_asc())),
{
    lemma_tau_desc_total();
    lemma_smc_asc_total();
    t1.lemma_sort_by_ensures(tau_desc());
    t2.lemma_sort_by_ensures(tau_desc());
    s1.lemma_sort_by_ensures(smc_asc());
    s2.lemma_sort_by_ensures(smc_asc());
    vstd::seq_lib::lemma_sorted_unique(t1.sort_by(tau_desc()), t2.sort_by(tau_desc()), tau_desc());
    vstd::seq_lib::lemma_sorted_unique(s1.sort_by(smc_asc()), s2.sort_by(smc_asc()), smc_asc());
}

} // verus!
