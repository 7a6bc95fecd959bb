//! Calibration bookkeeping: which early cuts were audited and how the audits ended.
//!
//! The counts kept here feed the delta/K controllers and the DIDS assignment; the
//! floating-point controllers themselves are driven by the caller from these counts.

use vstd::prelude::*;
use std::collections::HashMap;
use crate::types::{CandidateId, Phi, Smc, Tau};

verus! {

/// Policy revision increment produced by a policy update.
#[derive(Clone, Copy, Debug, PartialEq, Eq, Structural)]
pub struct PolicyRevDelta(pub u64);

/// Interval bucket key for solver-bias statistics: `(tau_loose, tau_tight, S)`.
#[derive(Clone, Copy, Debug, PartialEq, Eq, Hash, PartialOrd, Ord, Structural)]
pub struct KIntervalKey {
    pub tau_loose: Tau,
    pub tau_tight: Tau,
    pub smc: Smc,
}

/// The early cut an audited completion belongs to.
#[derive(Clone, Copy, Debug, PartialEq, Eq, Structural)]
pub struct AuditOf {
    pub violated_j: usize,
    pub phi_at_cut: Phi,
    pub phi_idx_at_cut: u32,
}


broadcast use vstd::std_specs::hash::group_hash_axioms;

// ----------------------------
// Sums of per-level counters
// ----------------------------

/// Sum of a counter vector.
pub open spec fn sum_counts(s: Seq<usize>) -> int
    decreases s.len(),
{
    if s.len() == 0 {
        0
    } else {
        sum_counts(s.drop_last()) + s.last()
    }
}

/// A counter vector grown with zeros so that index `l` exists.
pub open spec fn grown(s: Seq<usize>, l: int) -> Seq<usize> {
    if s.len() > l { s } else { s + Seq::new((l + 1 - s.len()) as nat, |i: int| 0usize) }
}

proof fn lemma_sum_update(s: Seq<usize>, i: int, v: usize)
    requires
        0 <= i < s.len(),
    ensures
        sum_counts(s.update(i, v)) == sum_counts(s) - s[i] + v,
    decreases s.len(),
{
    if i == s.len() - 1 {
        assert(s.update(i, v).drop_last() =~= s.drop_last());
    } else {
        lemma_sum_update(s.drop_last(), i, v);
        assert(s.update(i, v).drop_last() =~= s.drop_last().update(i, v));
    }
}

proof fn lemma_sum_zeros(s: Seq<usize>, n: nat)
    ensures
        sum_counts(s + Seq::new(n, |i: int| 0usize)) == sum_counts(s),
    decreases n,
{
    if n > 0 {
        let z = Seq::new(n, |i: int| 0usize);
        let z1 = Seq::new((n - 1) as nat, |i: int| 0usize);
        assert((s + z).drop_last() =~= s + z1);
        lemma_sum_zeros(s, (n - 1) as nat);
    } else {
        assert(s + Seq::new(n, |i: int| 0usize) =~= s);
    }
}

proof fn lemma_sum_grown(s: Seq<usize>, l: int)
    ensures
        sum_counts(grown(s, l)) == sum_counts(s),
        grown(s, l).len() == if s.len() > l { s.len() as int } else { l + 1 },
        forall|k: int| 0 <= k < s.len() ==> grown(s, l)[k] == s[k],
        forall|k: int| s.len() <= k < grown(s, l).len() ==> grown(s, l)[k] == 0,
{
    if s.len() <= l {
        lemma_sum_zeros(s, (l + 1 - s.len()) as nat);
    }
}

proof fn lemma_sum_pointwise(a: Seq<usize>, b: Seq<usize>)
    requires
        a.len() == b.len(),
        forall|k: int| 0 <= k < a.len() ==> a[k] <= b[k],
    ensures
        sum_counts(a) <= sum_counts(b),
    decreases a.len(),
{
    if a.len() > 0 {
        lemma_sum_pointwise(a.drop_last(), b.drop_last());
    }
}

proof fn lemma_sum_nonneg(a: Seq<usize>)
    ensures
        sum_counts(a) >= 0,
        forall|k: int| 0 <= k < a.len() ==> a[k] <= sum_counts(a),
    decreases a.len(),
{
    if a.len() > 0 {
        lemma_sum_nonneg(a.drop_last());
        assert forall|k: int| 0 <= k < a.len() implies a[k] <= sum_counts(a) by {
            if k < a.len() - 1 {
                assert(a[k] == a.drop_last()[k]);
            }
        }
    }
}

// ----------------------------
// Per-constraint counters
// ----------------------------

/// Audit counters for one constraint, in total and per ladder index of the cut.
#[derive(Debug, Default)]
pub struct Counts {
    pub cut: usize,
    pub audit: usize,
    pub false_infeas: usize,
    pub confirmed_violation: usize,
    pub cut_by_phi_idx: Vec<usize>,
    pub audit_by_phi_idx: Vec<usize>,
    pub false_infeas_by_phi_idx: Vec<usize>,
    pub confirmed_violation_by_phi_idx: Vec<usize>,
}

fn grow_to(v: &mut Vec<usize>, idx: usize)
    requires
        idx < usize::MAX,
    ensures
        final(v)@ == grown(old(v)@, idx as int),
{
    let ghost s0 = v@;
    let ghost target = grown(s0, idx as int);
    while v.len() <= idx
        invariant
            idx < usize::MAX,
            s0.len() <= v@.len(),
            v@.len() <= idx + 1 || v@ == s0,
            forall|k: int| 0 <= k < s0.len() ==> v@[k] == s0[k],
            forall|k: int| s0.len() <= k < v@.len() ==> v@[k] == 0,
        decreases idx + 1 - v@.len(),
    {
        v.push(0);
    }
    assert(v@ =~= target);
}

impl Counts {
    /// Fresh, all-zero counters.
    pub fn new() -> (r: Counts)
        ensures
            r.cut == 0 && r.audit == 0 && r.false_infeas == 0 && r.confirmed_violation == 0,
            r.cut_by_phi_idx@.len() == 0,
            r.audit_by_phi_idx@.len() == 0,
            r.false_infeas_by_phi_idx@.len() == 0,
            r.confirmed_violation_by_phi_idx@.len() == 0,
    {
        Counts {
            cut: 0,
            audit: 0,
            false_infeas: 0,
            confirmed_violation: 0,
            cut_by_phi_idx: Vec::new(),
            audit_by_phi_idx: Vec::new(),
            false_infeas_by_phi_idx: Vec::new(),
            confirmed_violation_by_phi_idx: Vec::new(),
        }
    }

    /// A copy of these counters.
    pub fn duplicate(&self) -> (r: Counts)
        ensures
            r.cut == self.cut && r.audit == self.audit,
            r.false_infeas == self.false_infeas && r.confirmed_violation == self.confirmed_violation,
            r.cut_by_phi_idx@ == self.cut_by_phi_idx@,
            r.audit_by_phi_idx@ == self.audit_by_phi_idx@,
            r.false_infeas_by_phi_idx@ == self.false_infeas_by_phi_idx@,
            r.confirmed_violation_by_phi_idx@ == self.confirmed_violation_by_phi_idx@,
    {
        Counts {
            cut: self.cut,
            audit: self.audit,
            false_infeas: self.false_infeas,
            confirmed_violation: self.confirmed_violation,
            cut_by_phi_idx: self.cut_by_phi_idx.clone(),
            audit_by_phi_idx: self.audit_by_phi_idx.clone(),
            false_infeas_by_phi_idx: self.false_infeas_by_phi_idx.clone(),
            confirmed_violation_by_phi_idx: self.confirmed_violation_by_phi_idx.clone(),
        }
    }

    /// Make sure every per-level vector has an entry for ladder index `idx`, growing
    /// with zeros; existing entries and totals are kept.
    pub fn ensure_level(&mut self, idx: usize)
        requires
            idx < usize::MAX,
        ensures
            final(self).cut_by_phi_idx@ == grown(old(self).cut_by_phi_idx@, idx as int),
            final(self).audit_by_phi_idx@ == grown(old(self).audit_by_phi_idx@, idx as int),
            final(self).false_infeas_by_phi_idx@ == grown(old(self).false_infeas_by_phi_idx@, idx as int),
            final(self).confirmed_violation_by_phi_idx@ == grown(old(self).confirmed_violation_by_phi_idx@, idx as int),
            final(self).cut == old(self).cut,
            final(self).audit == old(self).audit,
            final(self).false_infeas == old(self).false_infeas,
            final(self).confirmed_violation == old(self).confirmed_violation,
    {
        grow_to(&mut self.cut_by_phi_idx, idx);
        grow_to(&mut self.audit_by_phi_idx, idx);
        grow_to(&mut self.false_infeas_by_phi_idx, idx);
        grow_to(&mut self.confirmed_violation_by_phi_idx, idx);
    }
}

// ----------------------------
// The audit ledger
// ----------------------------

/// Number of pending audits of constraint `j` whose cut happened at ladder index `l`.
pub open spec fn pending_count(p: Map<u64, AuditOf>, j: int, l: int) -> nat {
    p.dom().filter(|k: u64| p[k].violated_j == j && p[k].phi_idx_at_cut == l).len()
}

/// Number of pending audits of constraint `j`.
pub open spec fn pending_count_j(p: Map<u64, AuditOf>, j: int) -> nat {
    p.dom().filter(|k: u64| p[k].violated_j == j).len()
}

proof fn lemma_pending_insert(p: Map<u64, AuditOf>, k: u64, a: AuditOf, j: int, l: int)
    requires
        p.dom().finite(),
        !p.contains_key(k),
    ensures
        pending_count(p.insert(k, a), j, l) == pending_count(p, j, l) + if a.violated_j == j && a.phi_idx_at_cut == l { 1nat } else { 0nat },
        pending_count_j(p.insert(k, a), j) == pending_count_j(p, j) + if a.violated_j == j { 1nat } else { 0nat },
{
    let q = p.insert(k, a);
    let s = p.dom().filter(|x: u64| p[x].violated_j == j && p[x].phi_idx_at_cut == l);
    let t = q.dom().filter(|x: u64| q[x].violated_j == j && q[x].phi_idx_at_cut == l);
    if a.violated_j == j && a.phi_idx_at_cut == l {
        assert(t =~= s.insert(k));
    } else {
        assert(t =~= s);
    }
    let s2 = p.dom().filter(|x: u64| p[x].violated_j == j);
    let t2 = q.dom().filter(|x: u64| q[x].violated_j == j);
    if a.violated_j == j {
        assert(t2 =~= s2.insert(k));
    } else {
        assert(t2 =~= s2);
    }
}

proof fn lemma_pending_remove(p: Map<u64, AuditOf>, k: u64, j: int, l: int)
    requires
        p.dom().finite(),
        p.contains_key(k),
    ensures
        pending_count(p.remove(k), j, l) + (if p[k].violated_j == j && p[k].phi_idx_at_cut == l { 1nat } else { 0nat }) == pending_count(p, j, l),
        pending_count_j(p.remove(k), j) + (if p[k].violated_j == j { 1nat } else { 0nat }) == pending_count_j(p, j),
{
    let q = p.remove(k);
    let s = p.dom().filter(|x: u64| p[x].violated_j == j && p[x].phi_idx_at_cut == l);
    let t = q.dom().filter(|x: u64| q[x].violated_j == j && q[x].phi_idx_at_cut == l);
    if p[k].violated_j == j && p[k].phi_idx_at_cut == l {
        assert(t =~= s.remove(k));
    } else {
        assert(t =~= s);
    }
    let s2 = p.dom().filter(|x: u64| p[x].violated_j == j);
    let t2 = q.dom().filter(|x: u64| q[x].violated_j == j);
    if p[k].violated_j == j {
        assert(t2 =~= s2.remove(k));
    } else {
        assert(t2 =~= s2);
    }
}

proof fn lemma_pending_count_positive(p: Map<u64, AuditOf>, k: u64)
    requires
        p.dom().finite(),
        p.contains_key(k),
    ensures
        pending_count(p, p[k].violated_j as int, p[k].phi_idx_at_cut as int) >= 1,
        pending_count_j(p, p[k].violated_j as int) >= 1,
{
    lemma_pending_remove(p, k, p[k].violated_j as int, p[k].phi_idx_at_cut as int);
}

/// Bookkeeping of audited early cuts: per-constraint counters and the cuts whose
/// audit has not reached its truth step yet, keyed by candidate id.
pub struct AuditLedger {
    counts: Vec<Counts>,
    pending: HashMap<u64, AuditOf>,
}

/// The ledger's invariant for one constraint's counters `c`, given the pending audits.
pub open spec fn counts_inv(c: Counts, j: int, p: Map<u64, AuditOf>) -> bool {
    let n = c.cut_by_phi_idx@.len();
    &&& c.audit_by_phi_idx@.len() == n
    &&& c.false_infeas_by_phi_idx@.len() == n
    &&& c.confirmed_violation_by_phi_idx@.len() == n
    &&& sum_counts(c.cut_by_phi_idx@) == c.cut
    &&& sum_counts(c.audit_by_phi_idx@) == c.audit
    &&& sum_counts(c.false_infeas_by_phi_idx@) == c.false_infeas
    &&& sum_counts(c.confirmed_violation_by_phi_idx@) == c.confirmed_violation
    &&& c.cut == c.audit + pending_count_j(p, j)
    &&& forall|l: int|
        #![trigger c.false_infeas_by_phi_idx@[l]]
        #![trigger c.confirmed_violation_by_phi_idx@[l]]
        #![trigger c.audit_by_phi_idx@[l]]
        #![trigger c.cut_by_phi_idx@[l]]
        0 <= l < n ==> {
        &&& c.false_infeas_by_phi_idx@[l] <= c.audit_by_phi_idx@[l]
        &&& c.confirmed_violation_by_phi_idx@[l] <= c.audit_by_phi_idx@[l]
        &&& c.cut_by_phi_idx@[l] == c.audit_by_phi_idx@[l] + pending_count(p, j, l)
    }
    &&& forall|k: u64| #[trigger] p.contains_key(k) && p[k].violated_j == j ==> (p[k].phi_idx_at_cut as int) < n
}

impl AuditLedger {
    /// The pending audits, keyed by candidate id.
    pub closed spec fn pending(&self) -> Map<u64, AuditOf> {
        self.pending@
    }

    /// The counters of every constraint.
    pub closed spec fn counts(&self) -> Seq<Counts> {
        self.counts@
    }

    /// The ledger's invariant: for each constraint, per-level counters add up to the
    /// totals, every audit outcome and every pending audit stems from a counted cut
    /// (cuts = audits + pending, per level and in total), and false-infeasible and
    /// confirmed-violation outcomes are among the audits.
    pub closed spec fn inv(&self) -> bool {
        &&& self.pending@.dom().finite()
        &&& forall|j: int| 0 <= j < self.counts@.len() ==> counts_inv(#[trigger] self.counts@[j], j, self.pending@)
    }

    /// A ledger for `m` constraints with no cuts recorded.
    pub fn new(m: usize) -> (r: AuditLedger)
        ensures
            r.inv(),
            r.counts().len() == m,
            r.pending() == Map::<u64, AuditOf>::empty(),
            forall|j: int| 0 <= j < m ==> {
                &&& (#[trigger] r.counts()[j]).cut == 0
                &&& r.counts()[j].audit == 0
                &&& r.counts()[j].false_infeas == 0
                &&& r.counts()[j].confirmed_violation == 0
                &&& r.counts()[j].cut_by_phi_idx@.len() == 0
            },
    {
        let mut counts: Vec<Counts> = Vec::new();
        let mut i: usize = 0;
        while i < m
            invariant
                i <= m,
                counts@.len() == i,
                forall|j: int| 0 <= j < i ==> {
                    &&& (#[trigger] counts@[j]).cut == 0
                    &&& counts@[j].audit == 0
                    &&& counts@[j].false_infeas == 0
                    &&& counts@[j].confirmed_violation == 0
                    &&& counts@[j].cut_by_phi_idx@.len() == 0
                    &&& counts@[j].audit_by_phi_idx@.len() == 0
                    &&& counts@[j].false_infeas_by_phi_idx@.len() == 0
                    &&& counts@[j].confirmed_violation_by_phi_idx@.len() == 0
                },
            decreases m - i,
        {
            counts.push(Counts::new());
            i = i + 1;
        }
        let pending: HashMap<u64, AuditOf> = HashMap::new();
        let r = AuditLedger { counts, pending };
        proof {
            assert forall|j: int| 0 <= j < r.counts@.len() implies counts_inv(#[trigger] r.counts@[j], j, r.pending@) by {
                assert(r.pending@.dom().filter(|k: u64| r.pending@[k].violated_j == j) =~= Set::<u64>::empty());
            }
        }
        r
    }

    /// Number of constraints tracked.
    pub fn num_constraints(&self) -> (r: usize)
        ensures
            r == self.counts().len(),
    {
        self.counts.len()
    }

    /// The pending audit of candidate `id`, if any.
    pub fn pending_audit(&self, id: CandidateId) -> (r: Option<AuditOf>)
        ensures
            r == (if self.pending().contains_key(id.0) { Some(self.pending()[id.0]) } else { None::<AuditOf> }),
    {
        match self.pending.get(&id.0) {
            Some(a) => Some(*a),
            None => None,
        }
    }

    /// Whether a cut of `a` can be counted without overflowing a counter.
    pub fn can_note_cut(&self, a: &AuditOf) -> (r: bool)
        ensures
            r == (a.violated_j < self.counts().len() ==> self.counts()[a.violated_j as int].cut < usize::MAX),
    {
        if a.violated_j < self.counts.len() {
            self.counts[a.violated_j].cut < usize::MAX
        } else {
            true
        }
    }

    /// Register an audited early cut for candidate `id`. If the candidate already has a
    /// pending audit nothing changes and `false` is returned; otherwise the audit becomes
    /// pending and, for a tracked constraint, the cut is counted at its ladder index.
    pub fn note_cut(&mut self, id: CandidateId, a: AuditOf) -> (fresh: bool)
        requires
            old(self).inv(),
            (a.phi_idx_at_cut as int) < usize::MAX,
            a.violated_j < old(self).counts().len() ==> old(self).counts()[a.violated_j as int].cut < usize::MAX,
        ensures
            final(self).inv(),
            fresh == !old(self).pending().contains_key(id.0),
            !fresh ==> final(self).pending() == old(self).pending() && final(self).counts() == old(self).counts(),
            fresh ==> final(self).pending() == old(self).pending().insert(id.0, a),
            final(self).counts().len() == old(self).counts().len(),
            forall|j: int| 0 <= j < old(self).counts().len() && (!fresh || j != a.violated_j) ==>
                #[trigger] final(self).counts()[j] == old(self).counts()[j],
            fresh && a.violated_j < old(self).counts().len() ==> {
                let c0 = old(self).counts()[a.violated_j as int];
                let c1 = final(self).counts()[a.violated_j as int];
                let l = a.phi_idx_at_cut as int;
                &&& c1.cut == c0.cut + 1
                &&& c1.cut_by_phi_idx@ == grown(c0.cut_by_phi_idx@, l).update(l, (grown(c0.cut_by_phi_idx@, l)[l] + 1) as usize)
                &&& c1.audit == c0.audit
                &&& c1.audit_by_phi_idx@ == grown(c0.audit_by_phi_idx@, l)
                &&& c1.false_infeas == c0.false_infeas
                &&& c1.false_infeas_by_phi_idx@ == grown(c0.false_infeas_by_phi_idx@, l)
                &&& c1.confirmed_violation == c0.confirmed_violation
                &&& c1.confirmed_violation_by_phi_idx@ == grown(c0.confirmed_violation_by_phi_idx@, l)
            },
    {
        if self.pending.contains_key(&id.0) {
            return false;
        }
        let ghost p0 = self.pending@;
        let j = a.violated_j;
        let lvl = a.phi_idx_at_cut as usize;
        if j < self.counts.len() {
            let mut c = self.counts[j].duplicate();
            proof {
                assert(counts_inv(self.counts@[j as int], j as int, p0));
                lemma_sum_nonneg(c.cut_by_phi_idx@);
            }
            c.ensure_level(lvl);
            proof {
                lemma_sum_grown(self.counts@[j as int].cut_by_phi_idx@, lvl as int);
                lemma_sum_grown(self.counts@[j as int].audit_by_phi_idx@, lvl as int);
                lemma_sum_grown(self.counts@[j as int].false_infeas_by_phi_idx@, lvl as int);
                lemma_sum_grown(self.counts@[j as int].confirmed_violation_by_phi_idx@, lvl as int);
                lemma_sum_nonneg(c.cut_by_phi_idx@);
            }
            c.cut = c.cut + 1;
            let v = c.cut_by_phi_idx[lvl];
            c.cut_by_phi_idx.set(lvl, v + 1);
            proof {
                lemma_sum_update(grown(self.counts@[j as int].cut_by_phi_idx@, lvl as int), lvl as int, (v + 1) as usize);
            }
            self.counts.set(j, c);
        }
        let ghost counts1 = self.counts@;
        self.pending.insert(id.0, a);
        proof {
            let p1 = self.pending@;
            assert(p1 == p0.insert(id.0, a));
            assert forall|jj: int| 0 <= jj < self.counts@.len() implies counts_inv(#[trigger] self.counts@[jj], jj, p1) by {
                let c0 = old(self).counts@[jj];
                assert(counts_inv(c0, jj, p0));
                lemma_pending_insert(p0, id.0, a, jj, 0);
                let c1 = self.counts@[jj];
                assert forall|l: int| 0 <= l < c1.cut_by_phi_idx@.len() implies {
                    &&& #[trigger] c1.false_infeas_by_phi_idx@[l] <= c1.audit_by_phi_idx@[l]
                    &&& c1.confirmed_violation_by_phi_idx@[l] <= c1.audit_by_phi_idx@[l]
                    &&& c1.cut_by_phi_idx@[l] == c1.audit_by_phi_idx@[l] + pending_count(p1, jj, l)
                } by {
                    lemma_pending_insert(p0, id.0, a, jj, l);
                    if jj == j {
                        let n0 = c0.cut_by_phi_idx@.len();
                        lemma_sum_grown(c0.cut_by_phi_idx@, lvl as int);
                        lemma_sum_grown(c0.audit_by_phi_idx@, lvl as int);
                        lemma_sum_grown(c0.false_infeas_by_phi_idx@, lvl as int);
                        lemma_sum_grown(c0.confirmed_violation_by_phi_idx@, lvl as int);
                        if l < n0 {
                            assert(c0.false_infeas_by_phi_idx@[l] <= c0.audit_by_phi_idx@[l]);
                        } else {
                            if pending_count(p0, jj, l) > 0 {
                                let s = p0.dom().filter(|x: u64| p0[x].violated_j == jj && p0[x].phi_idx_at_cut == l);
                                let w = s.choose();
                                assert(s.contains(w));
                                assert(p0.contains_key(w) && p0[w].violated_j == jj);
                            }
                        }
                    } else {
                        assert(c1 == c0);
                        assert(c0.false_infeas_by_phi_idx@[l] <= c0.audit_by_phi_idx@[l]);
                    }
                }
                assert forall|k: u64| #[trigger] p1.contains_key(k) && p1[k].violated_j == jj implies
                    (p1[k].phi_idx_at_cut as int) < self.counts@[jj].cut_by_phi_idx@.len() by {
                    if k != id.0 {
                        assert(p0.contains_key(k));
                    }
                }
            }
        }
        true
    }

    /// Record the truth outcome of candidate `id`. If it has a pending audit, the audit
    /// is closed and returned; for a tracked constraint it is counted at the cut's ladder
    /// index, as a false infeasible when the truth step is feasible, and as a confirmed
    /// violation when the flagged constraint is still violated. Otherwise nothing changes.
    pub fn note_truth(&mut self, id: CandidateId, feasible: bool, violation_confirmed: bool) -> (r: Option<AuditOf>)
        requires
            old(self).inv(),
        ensures
            final(self).inv(),
            r == (if old(self).pending().contains_key(id.0) { Some(old(self).pending()[id.0]) } else { None }),
            r is None ==> final(self).pending() == old(self).pending() && final(self).counts() == old(self).counts(),
            r is Some ==> final(self).pending() == old(self).pending().remove(id.0),
            final(self).counts().len() == old(self).counts().len(),
            forall|j: int| 0 <= j < old(self).counts().len() && (r is None || j != r->0.violated_j) ==>
                #[trigger] final(self).counts()[j] == old(self).counts()[j],
            r is Some && r->0.violated_j < old(self).counts().len() ==> {
                let a = r->0;
                let c0 = old(self).counts()[a.violated_j as int];
                let c1 = final(self).counts()[a.violated_j as int];
                let l = a.phi_idx_at_cut as int;
                let inc = |s: Seq<usize>, b: bool| if b { s.update(l, (s[l] + 1) as usize) } else { s };
                &&& c1.cut == c0.cut
                &&& c1.cut_by_phi_idx@ == c0.cut_by_phi_idx@
                &&& c1.audit == c0.audit + 1
                &&& c1.audit_by_phi_idx@ == inc(c0.audit_by_phi_idx@, true)
                &&& c1.false_infeas == c0.false_infeas + if feasible { 1int } else { 0int }
                &&& c1.false_infeas_by_phi_idx@ == inc(c0.false_infeas_by_phi_idx@, feasible)
                &&& c1.confirmed_violation == c0.confirmed_violation + if violation_confirmed { 1int } else { 0int }
                &&& c1.confirmed_violation_by_phi_idx@ == inc(c0.confirmed_violation_by_phi_idx@, violation_confirmed)
            },
    {
        let ghost p0 = self.pending@;
        let removed = self.pending.remove(&id.0);
        match removed {
            None => {
                proof {
                    assert(!p0.contains_key(id.0));
                    assert(self.pending@ =~= p0);
                }
                None
            },
            Some(a) => {
                proof {
                    assert(p0.contains_key(id.0));
                    assert(self.pending@ == p0.remove(id.0));
                }
                let j = a.violated_j;
                let lvl = a.phi_idx_at_cut as usize;
                if j < self.counts.len() {
                    let mut c = self.counts[j].duplicate();
                    proof {
                        assert(counts_inv(self.counts@[j as int], j as int, p0));
                        assert(a == p0[id.0]);
                        lemma_pending_count_positive(p0, id.0);
                        assert(lvl < c.cut_by_phi_idx@.len());
                        assert(self.counts@[j as int].cut_by_phi_idx@[lvl as int]
                            == self.counts@[j as int].audit_by_phi_idx@[lvl as int] + pending_count(p0, j as int, lvl as int));
                        lemma_sum_nonneg(c.cut_by_phi_idx@);
                        assert(c.audit_by_phi_idx@[lvl as int] < c.cut_by_phi_idx@[lvl as int]);
                        assert(c.false_infeas_by_phi_idx@[lvl as int] <= c.audit_by_phi_idx@[lvl as int]);
                        assert(c.confirmed_violation_by_phi_idx@[lvl as int] <= c.audit_by_phi_idx@[lvl as int]);
                        lemma_sum_pointwise(c.false_infeas_by_phi_idx@, c.audit_by_phi_idx@);
                        lemma_sum_pointwise(c.confirmed_violation_by_phi_idx@, c.audit_by_phi_idx@);
                        lemma_sum_pointwise(c.audit_by_phi_idx@, c.cut_by_phi_idx@);
                    }
                    let n_levels = c.cut_by_phi_idx.len();
                    assert(lvl < n_levels);
                    c.ensure_level(lvl);
                    proof {
                        lemma_sum_grown(self.counts@[j as int].cut_by_phi_idx@, lvl as int);
                        lemma_sum_grown(self.counts@[j as int].audit_by_phi_idx@, lvl as int);
                        lemma_sum_grown(self.counts@[j as int].false_infeas_by_phi_idx@, lvl as int);
                        lemma_sum_grown(self.counts@[j as int].confirmed_violation_by_phi_idx@, lvl as int);
                        assert(c.cut_by_phi_idx@ =~= self.counts@[j as int].cut_by_phi_idx@);
                        assert(c.audit_by_phi_idx@ =~= self.counts@[j as int].audit_by_phi_idx@);
                        assert(c.false_infeas_by_phi_idx@ =~= self.counts@[j as int].false_infeas_by_phi_idx@);
                        assert(c.confirmed_violation_by_phi_idx@ =~= self.counts@[j as int].confirmed_violation_by_phi_idx@);
                    }
                    let ghost a_by0 = c.audit_by_phi_idx@;
                    let ghost f_by0 = c.false_infeas_by_phi_idx@;
                    let ghost v_by0 = c.confirmed_violation_by_phi_idx@;
                    c.audit = c.audit + 1;
                    let va = c.audit_by_phi_idx[lvl];
                    c.audit_by_phi_idx.set(lvl, va + 1);
                    proof {
                        lemma_sum_update(a_by0, lvl as int, (va + 1) as usize);
                    }
                    if feasible {
                        c.false_infeas = c.false_infeas + 1;
                        let vf = c.false_infeas_by_phi_idx[lvl];
                        c.false_infeas_by_phi_idx.set(lvl, vf + 1);
                        proof {
                            lemma_sum_update(f_by0, lvl as int, (vf + 1) as usize);
                        }
                    }
                    if violation_confirmed {
                        c.confirmed_violation = c.confirmed_violation + 1;
                        let vc = c.confirmed_violation_by_phi_idx[lvl];
                        c.confirmed_violation_by_phi_idx.set(lvl, vc + 1);
                        proof {
                            lemma_sum_update(v_by0, lvl as int, (vc + 1) as usize);
                        }
                    }
                    self.counts.set(j, c);
                }
                proof {
                    let p1 = self.pending@;
                    assert forall|jj: int| 0 <= jj < self.counts@.len() implies counts_inv(#[trigger] self.counts@[jj], jj, p1) by {
                        let c0 = old(self).counts@[jj];
                        let c1 = self.counts@[jj];
                        assert(counts_inv(c0, jj, p0));
                        lemma_pending_remove(p0, id.0, jj, 0);
                        if jj == j {
                            lemma_sum_grown(c0.cut_by_phi_idx@, lvl as int);
                            lemma_sum_grown(c0.audit_by_phi_idx@, lvl as int);
                            lemma_sum_grown(c0.false_infeas_by_phi_idx@, lvl as int);
                            lemma_sum_grown(c0.confirmed_violation_by_phi_idx@, lvl as int);
                            assert(c1.cut_by_phi_idx@ =~= c0.cut_by_phi_idx@);
                        } else {
                            assert(c1 == c0);
                        }
                        assert forall|l: int| 0 <= l < c1.cut_by_phi_idx@.len() implies {
                            &&& #[trigger] c1.false_infeas_by_phi_idx@[l] <= c1.audit_by_phi_idx@[l]
                            &&& c1.confirmed_violation_by_phi_idx@[l] <= c1.audit_by_phi_idx@[l]
                            &&& c1.cut_by_phi_idx@[l] == c1.audit_by_phi_idx@[l] + pending_count(p1, jj, l)
                        } by {
                            lemma_pending_remove(p0, id.0, jj, l);
                            assert(c0.false_infeas_by_phi_idx@[l] <= c0.audit_by_phi_idx@[l]);
                            assert(c0.confirmed_violation_by_phi_idx@[l] <= c0.audit_by_phi_idx@[l]);
                            assert(c0.cut_by_phi_idx@[l] == c0.audit_by_phi_idx@[l] + pending_count(p0, jj, l));
                        }
                        assert forall|k: u64| #[trigger] p1.contains_key(k) && p1[k].violated_j == jj implies
                            (p1[k].phi_idx_at_cut as int) < c1.cut_by_phi_idx@.len() by {
                            assert(p0.contains_key(k));
                        }
                    }
                }
                Some(a)
            },
        }
    }
}

/// In a consistent ledger, audits never exceed counted cuts, and false-infeasible and
/// confirmed-violation outcomes never exceed audits, for every constraint.
pub proof fn lemma_ledger_bounds(ledger: &AuditLedger, j: int)
    requires
        ledger.inv(),
        0 <= j < ledger.counts().len(),
    ensures
        ledger.counts()[j].false_infeas <= ledger.counts()[j].audit,
        ledger.counts()[j].confirmed_violation <= ledger.counts()[j].audit,
        ledger.counts()[j].audit <= ledger.counts()[j].cut,
        ledger.counts()[j].cut == ledger.counts()[j].audit + pending_count_j(ledger.pending(), j),
{
    let c = ledger.counts()[j];
    assert(counts_inv(c, j, ledger.pending()));
    lemma_sum_pointwise(c.false_infeas_by_phi_idx@, c.audit_by_phi_idx@);
    lemma_sum_pointwise(c.confirmed_violation_by_phi_idx@, c.audit_by_phi_idx@);
}


/// Counter snapshot for `m` constraints, as surfaced to other policies.
#[derive(Debug)]
pub struct CountsSnapshot {
    pub cut_n: Vec<usize>,
    pub audit_n: Vec<usize>,
    pub false_infeas_n: Vec<usize>,
    pub confirmed_violation_n: Vec<usize>,
    pub cut_n_by_phi_idx: Vec<Vec<usize>>,
    pub audit_n_by_phi_idx: Vec<Vec<usize>>,
    pub false_infeas_n_by_phi_idx: Vec<Vec<usize>>,
    pub confirmed_violation_n_by_phi_idx: Vec<Vec<usize>>,
}

/// The counters of constraint `j`, or fresh counters when `j` is not tracked.
pub open spec fn counts_or_zero(cs: Seq<Counts>, j: int) -> (usize, usize, usize, usize, Seq<usize>, Seq<usize>, Seq<usize>, Seq<usize>) {
    if 0 <= j < cs.len() {
        let c = cs[j];
        (c.cut, c.audit, c.false_infeas, c.confirmed_violation, c.cut_by_phi_idx@, c.audit_by_phi_idx@,
            c.false_infeas_by_phi_idx@, c.confirmed_violation_by_phi_idx@)
    } else {
        (0, 0, 0, 0, Seq::empty(), Seq::empty(), Seq::empty(), Seq::empty())
    }
}

/// In a consistent ledger, for every constraint (an untracked one reads as zero) and
/// every ladder index of the cut: audits never exceed cuts, and false-infeasible and
/// confirmed-violation outcomes never exceed audits. The per-level vectors have equal
/// lengths. `snapshot` copies exactly these counters.
pub proof fn lemma_ledger_level_bounds(ledger: &AuditLedger, j: int)
    requires
        ledger.inv(),
    ensures
        ({
            let t = counts_or_zero(ledger.counts(), j);
            &&& t.5.len() == t.4.len() && t.6.len() == t.4.len() && t.7.len() == t.4.len()
            &&& t.1 <= t.0 && t.2 <= t.1 && t.3 <= t.1
            &&& forall|l: int| 0 <= l < t.4.len() ==> {
                &&& #[trigger] t.5[l] <= t.4[l]
                &&& t.6[l] <= t.5[l]
                &&& t.7[l] <= t.5[l]
            }
        }),
{
    if 0 <= j < ledger.counts().len() {
        lemma_ledger_bounds(ledger, j);
        let c = ledger.counts()[j];
        assert(counts_inv(c, j, ledger.pending()));
        let t = counts_or_zero(ledger.counts(), j);
        assert forall|l: int| 0 <= l < t.4.len() implies {
            &&& #[trigger] t.5[l] <= t.4[l]
            &&& t.6[l] <= t.5[l]
            &&& t.7[l] <= t.5[l]
        } by {
            assert(c.cut_by_phi_idx@[l] == c.audit_by_phi_idx@[l] + pending_count(ledger.pending(), j, l));
            assert(c.false_infeas_by_phi_idx@[l] <= c.audit_by_phi_idx@[l]);
        }
    }
}

impl AuditLedger {
    /// Copy the counters of constraints `0..m` out of the ledger; constraints the ledger
    /// does not track read as zero.
    pub fn snapshot(&self, m: usize) -> (r: CountsSnapshot)
        ensures
            r.cut_n@.len() == m && r.audit_n@.len() == m,
            r.false_infeas_n@.len() == m && r.confirmed_violation_n@.len() == m,
            r.cut_n_by_phi_idx@.len() == m && r.audit_n_by_phi_idx@.len() == m,
            r.false_infeas_n_by_phi_idx@.len() == m && r.confirmed_violation_n_by_phi_idx@.len() == m,
            forall|j: int| 0 <= j < m ==> {
                let t = #[trigger] counts_or_zero(self.counts(), j);
                &&& r.cut_n@[j] == t.0
                &&& r.audit_n@[j] == t.1
                &&& r.false_infeas_n@[j] == t.2
                &&& r.confirmed_violation_n@[j] == t.3
                &&& r.cut_n_by_phi_idx@[j]@ == t.4
                &&& r.audit_n_by_phi_idx@[j]@ == t.5
                &&& r.false_infeas_n_by_phi_idx@[j]@ == t.6
                &&& r.confirmed_violation_n_by_phi_idx@[j]@ == t.7
            },
    {
        let mut r = CountsSnapshot {
            cut_n: Vec::new(),
            audit_n: Vec::new(),
            false_infeas_n: Vec::new(),
            confirmed_violation_n: Vec::new(),
            cut_n_by_phi_idx: Vec::new(),
            audit_n_by_phi_idx: Vec::new(),
            false_infeas_n_by_phi_idx: Vec::new(),
            confirmed_violation_n_by_phi_idx: Vec::new(),
        };
        let mut j: usize = 0;
        while j < m
            invariant
                j <= m,
                r.cut_n@.len() == j && r.audit_n@.len() == j,
                r.false_infeas_n@.len() == j && r.confirmed_violation_n@.len() == j,
                r.cut_n_by_phi_idx@.len() == j && r.audit_n_by_phi_idx@.len() == j,
                r.false_infeas_n_by_phi_idx@.len() == j && r.confirmed_violation_n_by_phi_idx@.len() == j,
                forall|k: int| 0 <= k < j ==> {
                    let t = #[trigger] counts_or_zero(self.counts(), k);
                    &&& r.cut_n@[k] == t.0
                    &&& r.audit_n@[k] == t.1
                    &&& r.false_infeas_n@[k] == t.2
                    &&& r.confirmed_violation_n@[k] == t.3
                    &&& r.cut_n_by_phi_idx@[k]@ == t.4
                    &&& r.audit_n_by_phi_idx@[k]@ == t.5
                    &&& r.false_infeas_n_by_phi_idx@[k]@ == t.6
                    &&& r.confirmed_violation_n_by_phi_idx@[k]@ == t.7
                },
            decreases m - j,
        {
            if j < self.counts.len() {
                let c = self.counts[j].duplicate();
                r.cut_n.push(c.cut);
                r.audit_n.push(c.audit);
                r.false_infeas_n.push(c.false_infeas);
                r.confirmed_violation_n.push(c.confirmed_violation);
                r.cut_n_by_phi_idx.push(c.cut_by_phi_idx);
                r.audit_n_by_phi_idx.push(c.audit_by_phi_idx);
                r.false_infeas_n_by_phi_idx.push(c.false_infeas_by_phi_idx);
                r.confirmed_violation_n_by_phi_idx.push(c.confirmed_violation_by_phi_idx);
            } else {
                r.cut_n.push(0);
                r.audit_n.push(0);
                r.false_infeas_n.push(0);
                r.confirmed_violation_n.push(0);
                r.cut_n_by_phi_idx.push(Vec::new());
                r.audit_n_by_phi_idx.push(Vec::new());
                r.false_infeas_n_by_phi_idx.push(Vec::new());
                r.confirmed_violation_n_by_phi_idx.push(Vec::new());
            }
            proof {
                let t = counts_or_zero(self.counts(), j as int);
                assert(r.cut_n_by_phi_idx@[j as int]@ =~= t.4);
                assert(r.audit_n_by_phi_idx@[j as int]@ =~= t.5);
                assert(r.false_infeas_n_by_phi_idx@[j as int]@ =~= t.6);
                assert(r.confirmed_violation_n_by_phi_idx@[j as int]@ =~= t.7);
            }
            j = j + 1;
        }
        r
    }
}

} // verus!
