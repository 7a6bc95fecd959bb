//! Bookkeeping of the solver-bias (K) statistics: which audit checkpoints form
//! tolerance intervals, the per-candidate list of paired checkpoints, bounded
//! sample windows, and the sorted key sets the per-interval and per-step states
//! are rebuilt over. The sample values and quantiles are floating point and are
//! handled outside.

use vstd::prelude::*;
use crate::calibrator::KIntervalKey;
use crate::types::Phi;

verus! {

// ----------------------------
// Intervals between checkpoints
// ----------------------------

/// `(loose, tight)` is a tolerance interval: the same sample count, with a strictly
/// tighter tolerance on the second step.
pub open spec fn is_interval(loose: Phi, tight: Phi) -> bool {
    loose.smc == tight.smc && tight.tau.0 < loose.tau.0
}

/// The interval key of `(loose, tight)`, when they form an interval.
pub fn interval_key(loose: Phi, tight: Phi) -> (r: Option<KIntervalKey>)
    ensures
        r == (if is_interval(loose, tight) {
            Some(KIntervalKey { tau_loose: loose.tau, tau_tight: tight.tau, smc: loose.smc })
        } else {
            None::<KIntervalKey>
        }),
{
    if loose.smc.0 == tight.smc.0 && tight.tau.0 < loose.tau.0 {
        Some(KIntervalKey { tau_loose: loose.tau, tau_tight: tight.tau, smc: loose.smc })
    } else {
        None
    }
}

/// The starts `w < n` of consecutive windows `(phis[w], phis[w + 1])` that form intervals.
pub open spec fn interval_windows(phis: Seq<Phi>, n: nat) -> Seq<usize>
    decreases n,
{
    if n == 0 {
        Seq::empty()
    } else {
        let w = (n - 1) as nat;
        let prev = interval_windows(phis, w);
        if is_interval(phis[w as int], phis[(w + 1) as int]) { prev.push(w as usize) } else { prev }
    }
}

/// The windows of an audit's checkpoint sequence (the cut step, then the paired
/// checkpoints in ladder order) that yield interval samples. When there is none, the
/// caller falls back to a cut-to-truth sample.
pub fn structured_pairs(phis: &[Phi]) -> (r: Vec<usize>)
    ensures
        r@ == interval_windows(phis@, if phis@.len() > 0 { (phis@.len() - 1) as nat } else { 0 }),
{
    let n: usize = if phis.len() > 0 { phis.len() - 1 } else { 0 };
    let mut out: Vec<usize> = Vec::new();
    let mut w: usize = 0;
    while w < n
        invariant
            n == (if phis@.len() > 0 { (phis@.len() - 1) as nat } else { 0 }),
            w <= n,
            out@ == interval_windows(phis@, w as nat),
        decreases n - w,
    {
        let a = phis[w];
        let b = phis[w + 1];
        if a.smc.0 == b.smc.0 && b.tau.0 < a.tau.0 {
            out.push(w);
        }
        w = w + 1;
    }
    out
}

// ----------------------------
// Paired checkpoints of a pending audit
// ----------------------------

/// Entry keys (ladder indices) strictly increase.
pub open spec fn keys_increasing<T>(v: Seq<(u32, T)>) -> bool {
    forall|a: int, b: int| 0 <= a < b < v.len() ==> (#[trigger] v[a]).0 < (#[trigger] v[b]).0
}

/// Some entry has key `k`.
pub open spec fn has_key<T>(v: Seq<(u32, T)>, k: u32) -> bool {
    exists|i: int| 0 <= i < v.len() && (#[trigger] v[i]).0 == k
}

/// Record the paired checkpoint `val` at ladder index `idx`: it replaces an entry with
/// the same index, or is inserted so that the indices stay in increasing order.
pub fn upsert_checkpoint<T>(v: &mut Vec<(u32, T)>, idx: u32, val: T)
    requires
        keys_increasing(old(v)@),
    ensures
        keys_increasing(final(v)@),
        forall|k: u32| has_key(final(v)@, k) <==> (k == idx || has_key(old(v)@, k)),
        forall|i: int| 0 <= i < final(v)@.len() && (#[trigger] final(v)@[i]).0 == idx ==> final(v)@[i].1 == val,
        forall|i: int, j: int| 0 <= i < final(v)@.len() && 0 <= j < old(v)@.len()
            && (#[trigger] final(v)@[i]).0 == (#[trigger] old(v)@[j]).0 && old(v)@[j].0 != idx ==>
            final(v)@[i].1 == old(v)@[j].1,
{
    let n = v.len();
    let mut p: usize = 0;
    while p < n && v[p].0 < idx
        invariant
            n == v@.len(),
            v@ == old(v)@,
            p <= n,
            forall|a: int| 0 <= a < p ==> (#[trigger] v@[a]).0 < idx,
        decreases n - p,
    {
        p = p + 1;
    }
    let ghost v0 = v@;
    if p < n && v[p].0 == idx {
        v.set(p, (idx, val));
        proof {
            assert(v@ == v0.update(p as int, (idx, val)));
            assert forall|k: u32| #![trigger has_key(v@, k)] #![trigger has_key(v0, k)] has_key(v@, k) <==> (k == idx || has_key(v0, k)) by {
                if has_key(v0, k) {
                    let i = choose|i: int| 0 <= i < v0.len() && (#[trigger] v0[i]).0 == k;
                    assert(v@[i].0 == k);
                }
                if has_key(v@, k) {
                    let i = choose|i: int| 0 <= i < v@.len() && (#[trigger] v@[i]).0 == k;
                    assert(v0[i].0 == k);
                }
                if k == idx {
                    assert(v@[p as int].0 == k);
                }
            }
        }
    } else {
        v.insert(p, (idx, val));
        proof {
            assert(v@ == v0.insert(p as int, (idx, val)));
            assert forall|a: int, b: int| 0 <= a < b < v@.len() implies (#[trigger] v@[a]).0 < (#[trigger] v@[b]).0 by {
                if b < p {
                } else if b == p {
                    assert(v@[a] == v0[a]);
                } else if a < p {
                    assert(v@[b] == v0[b - 1]);
                    if p < n {
                        assert(v0[p as int].0 > idx);
                    }
                    assert(v0[a].0 < idx);
                } else if a == p {
                    assert(v@[b] == v0[b - 1]);
                    assert(v0[p as int].0 > idx);
                } else {
                    assert(v@[a] == v0[a - 1] && v@[b] == v0[b - 1]);
                }
            }
            assert forall|k: u32| #![trigger has_key(v@, k)] #![trigger has_key(v0, k)] has_key(v@, k) <==> (k == idx || has_key(v0, k)) by {
                if has_key(v0, k) {
                    let i = choose|i: int| 0 <= i < v0.len() && (#[trigger] v0[i]).0 == k;
                    if i < p {
                        assert(v@[i].0 == k);
                    } else {
                        assert(v@[i + 1].0 == k);
                    }
                }
                if has_key(v@, k) {
                    let i = choose|i: int| 0 <= i < v@.len() && (#[trigger] v@[i]).0 == k;
                    if i < p {
                        assert(v0[i].0 == k);
                    } else if i > p {
                        assert(v0[i - 1].0 == k);
                    }
                }
                if k == idx {
                    assert(v@[p as int].0 == k);
                }
            }
            assert forall|i: int, j: int| 0 <= i < v@.len() && 0 <= j < v0.len()
                && (#[trigger] v@[i]).0 == (#[trigger] v0[j]).0 && v0[j].0 != idx implies v@[i].1 == v0[j].1 by {
                if i < p {
                    assert(v@[i] == v0[i]);
                    if i != j {
                        assert(v0[i].0 != v0[j].0);
                    }
                } else if i > p {
                    assert(v@[i] == v0[i - 1]);
                    if i - 1 != j {
                        assert(v0[i - 1].0 != v0[j].0);
                    }
                }
            }
        }
    }
}

// ----------------------------
// Sorted key sets
// ----------------------------

/// The order of fidelity steps: by tolerance, then by sample count.
pub open spec fn phi_lt(a: Phi, b: Phi) -> bool {
    a.tau.0 < b.tau.0 || (a.tau.0 == b.tau.0 && a.smc.0 < b.smc.0)
}

/// Strictly increasing fidelity steps.
pub open spec fn phis_strictly_sorted(s: Seq<Phi>) -> bool {
    forall|a: int, b: int| 0 <= a < b < s.len() ==> phi_lt(#[trigger] s[a], #[trigger] s[b])
}

/// The distinct fidelity steps among `keys`, in increasing order.
pub fn sorted_distinct_phis(keys: &[Phi]) -> (r: Vec<Phi>)
    ensures
        phis_strictly_sorted(r@),
        forall|p: Phi| r@.contains(p) <==> keys@.contains(p),
{
    let mut out: Vec<Phi> = Vec::new();
    let mut t: usize = 0;
    while t < keys.len()
        invariant
            t <= keys@.len(),
            phis_strictly_sorted(out@),
            forall|p: Phi| out@.contains(p) <==> keys@.take(t as int).contains(p),
        decreases keys@.len() - t,
    {
        let k = keys[t];
        let n = out.len();
        let mut p: usize = 0;
        while p < n && (out[p].tau.0 < k.tau.0 || (out[p].tau.0 == k.tau.0 && out[p].smc.0 < k.smc.0))
            invariant
                n == out@.len(),
                t < keys@.len(),
                k == keys@[t as int],
                phis_strictly_sorted(out@),
                forall|q: Phi| out@.contains(q) <==> keys@.take(t as int).contains(q),
                p <= n,
                forall|a: int| 0 <= a < p ==> phi_lt(#[trigger] out@[a], k),
            decreases n - p,
        {
            p = p + 1;
        }
        let ghost o0 = out@;
        proof {
            assert(keys@.take(t + 1) =~= keys@.take(t as int).push(k));
            assert forall|q: Phi| #![trigger keys@.take(t as int).push(k).contains(q)] #![trigger keys@.take(t as int).contains(q)] keys@.take(t as int).push(k).contains(q) <==> (q == k || keys@.take(t as int).contains(q)) by {
                let s = keys@.take(t as int);
                if s.push(k).contains(q) {
                    let i = choose|i: int| 0 <= i < s.push(k).len() && s.push(k)[i] == q;
                    if i < s.len() {
                        assert(s[i] == q);
                    }
                }
                if s.contains(q) {
                    let i = choose|i: int| 0 <= i < s.len() && s[i] == q;
                    assert(s.push(k)[i] == q);
                }
                if q == k {
                    assert(s.push(k)[s.len() as int] == q);
                }
            }
        }
        if p < n && out[p] == k {
            proof {
                assert forall|q: Phi| #![trigger out@.contains(q)] #![trigger o0.contains(q)] out@.contains(q) <==> (q == k || o0.contains(q)) by {
                    if q == k {
                        assert(out@[p as int] == q);
                    }
                }
            }
        } else {
            out.insert(p, k);
            proof {
                assert(out@ == o0.insert(p as int, k));
                if p < n {
                    assert(!phi_lt(o0[p as int], k));
                    assert(o0[p as int] != k);
                    assert(phi_lt(k, o0[p as int]));
                }
                assert forall|a: int, b: int| 0 <= a < b < out@.len() implies phi_lt(#[trigger] out@[a], #[trigger] out@[b]) by {
                    if b < p {
                    } else if b == p {
                        assert(out@[a] == o0[a]);
                    } else if a < p {
                        assert(out@[a] == o0[a]);
                        assert(out@[b] == o0[b - 1]);
                        assert(phi_lt(o0[a], k));
                        if b - 1 > p {
                            assert(phi_lt(o0[p as int], o0[b - 1]));
                        }
                    } else if a == p {
                        assert(out@[b] == o0[b - 1]);
                        if b - 1 > p {
                            assert(phi_lt(o0[p as int], o0[b - 1]));
                        }
                    } else {
                        assert(out@[a] == o0[a - 1] && out@[b] == o0[b - 1]);
                    }
                }
                assert forall|q: Phi| #![trigger out@.contains(q)] #![trigger o0.contains(q)] out@.contains(q) <==> (q == k || o0.contains(q)) by {
                    if o0.contains(q) {
                        let i = choose|i: int| 0 <= i < o0.len() && o0[i] == q;
                        if i < p {
                            assert(out@[i] == q);
                        } else {
                            assert(out@[i + 1] == q);
                        }
                    }
                    if out@.contains(q) {
                        let i = choose|i: int| 0 <= i < out@.len() && out@[i] == q;
                        if i < p {
                            assert(o0[i] == q);
                        } else if i > p {
                            assert(o0[i - 1] == q);
                        }
                    }
                    if q == k {
                        assert(out@[p as int] == q);
                    }
                }
            }
        }
        t = t + 1;
    }
    proof {
        assert(keys@.take(keys@.len() as int) =~= keys@);
    }
    out
}

/// The order of interval keys: by loose tolerance, then tight tolerance, then sample count.
pub open spec fn interval_lt(a: KIntervalKey, b: KIntervalKey) -> bool {
    a.tau_loose.0 < b.tau_loose.0 || (a.tau_loose.0 == b.tau_loose.0 && (a.tau_tight.0 < b.tau_tight.0
        || (a.tau_tight.0 == b.tau_tight.0 && a.smc.0 < b.smc.0)))
}

/// Strictly increasing interval keys.
pub open spec fn intervals_strictly_sorted(s: Seq<KIntervalKey>) -> bool {
    forall|a: int, b: int| 0 <= a < b < s.len() ==> interval_lt(#[trigger] s[a], #[trigger] s[b])
}

/// The distinct interval keys among `keys`, in increasing order.
pub fn sorted_distinct_intervals(keys: &[KIntervalKey]) -> (r: Vec<KIntervalKey>)
    ensures
        intervals_strictly_sorted(r@),
        forall|p: KIntervalKey| r@.contains(p) <==> keys@.contains(p),
{
    let mut out: Vec<KIntervalKey> = Vec::new();
    let mut t: usize = 0;
    while t < keys.len()
        invariant
            t <= keys@.len(),
            intervals_strictly_sorted(out@),
            forall|p: KIntervalKey| out@.contains(p) <==> keys@.take(t as int).contains(p),
        decreases keys@.len() - t,
    {
        let k = keys[t];
        let n = out.len();
        let mut p: usize = 0;
        while p < n && key_lt(out[p], k)
            invariant
                n == out@.len(),
                t < keys@.len(),
                k == keys@[t as int],
                intervals_strictly_sorted(out@),
                forall|q: KIntervalKey| out@.contains(q) <==> keys@.take(t as int).contains(q),
                p <= n,
                forall|a: int| 0 <= a < p ==> interval_lt(#[trigger] out@[a], k),
            decreases n - p,
        {
            p = p + 1;
        }
        let ghost o0 = out@;
        proof {
            assert(keys@.take(t + 1) =~= keys@.take(t as int).push(k));
            assert forall|q: KIntervalKey| #![trigger keys@.take(t as int).push(k).contains(q)] #![trigger keys@.take(t as int).contains(q)] keys@.take(t as int).push(k).contains(q) <==> (q == k || keys@.take(t as int).contains(q)) by {
                let s = keys@.take(t as int);
                if s.push(k).contains(q) {
                    let i = choose|i: int| 0 <= i < s.push(k).len() && s.push(k)[i] == q;
                    if i < s.len() {
                        assert(s[i] == q);
                    }
                }
                if s.contains(q) {
                    let i = choose|i: int| 0 <= i < s.len() && s[i] == q;
                    assert(s.push(k)[i] == q);
                }
                if q == k {
                    assert(s.push(k)[s.len() as int] == q);
                }
            }
        }
        if p < n && out[p] == k {
            proof {
                assert forall|q: KIntervalKey| #![trigger out@.contains(q)] #![trigger o0.contains(q)] out@.contains(q) <==> (q == k || o0.contains(q)) by {
                    if q == k {
                        assert(out@[p as int] == q);
                    }
                }
            }
        } else {
            out.insert(p, k);
            proof {
                assert(out@ == o0.insert(p as int, k));
                if p < n {
                    assert(!interval_lt(o0[p as int], k));
                    assert(o0[p as int] != k);
                    assert(interval_lt(k, o0[p as int]));
                }
                assert forall|a: int, b: int| 0 <= a < b < out@.len() implies interval_lt(#[trigger] out@[a], #[trigger] out@[b]) by {
                    if b < p {
                    } else if b == p {
                        assert(out@[a] == o0[a]);
                    } else if a < p {
                        assert(out@[a] == o0[a]);
                        assert(out@[b] == o0[b - 1]);
                        assert(interval_lt(o0[a], k));
                        if b - 1 > p {
                            assert(interval_lt(o0[p as int], o0[b - 1]));
                        }
                    } else if a == p {
                        assert(out@[b] == o0[b - 1]);
                        if b - 1 > p {
                            assert(interval_lt(o0[p as int], o0[b - 1]));
                        }
                    } else {
                        assert(out@[a] == o0[a - 1] && out@[b] == o0[b - 1]);
                    }
                }
                assert forall|q: KIntervalKey| #![trigger out@.contains(q)] #![trigger o0.contains(q)] out@.contains(q) <==> (q == k || o0.contains(q)) by {
                    if o0.contains(q) {
                        let i = choose|i: int| 0 <= i < o0.len() && o0[i] == q;
                        if i < p {
                            assert(out@[i] == q);
                        } else {
                            assert(out@[i + 1] == q);
                        }
                    }
                    if out@.contains(q) {
                        let i = choose|i: int| 0 <= i < out@.len() && out@[i] == q;
                        if i < p {
                            assert(o0[i] == q);
                        } else if i > p {
                            assert(o0[i - 1] == q);
                        }
                    }
                    if q == k {
                        assert(out@[p as int] == q);
                    }
                }
            }
        }
        t = t + 1;
    }
    proof {
        assert(keys@.take(keys@.len() as int) =~= keys@);
    }
    out
}

/// `a` orders before `b` as interval keys.
fn key_lt(a: KIntervalKey, b: KIntervalKey) -> (r: bool)
    ensures
        r == interval_lt(a, b),
{
    a.tau_loose.0 < b.tau_loose.0 || (a.tau_loose.0 == b.tau_loose.0 && (a.tau_tight.0 < b.tau_tight.0
        || (a.tau_tight.0 == b.tau_tight.0 && a.smc.0 < b.smc.0)))
}

} // verus!
