//! The run-global candidate store: every candidate proposed during a run, in
//! insertion order, indexed by identifier so a candidate can be resumed step by step.

use vstd::prelude::*;
use std::collections::HashMap;
use crate::engine::{lemma_step_audit_sticky, step_spec, EngineStats, StepDecision, StepInput};
use crate::ladder::PruneGate;
use crate::types::{CandView, CandidateId, CandidateStageState, CandidateStatus, EnvRev, Phi, PolicyRev, WorkItem};

verus! {

broadcast use vstd::std_specs::hash::group_hash_axioms;

/// Candidates in insertion order, with an index from identifier to position.
pub struct CandidateStore {
    cands: Vec<CandidateStageState>,
    index: HashMap<u64, usize>,
}

/// Some candidate of `items` has identifier `id`.
pub open spec fn has_id(items: Seq<CandView>, id: CandidateId) -> bool {
    exists|i: int| 0 <= i < items.len() && (#[trigger] items[i]).id == id
}

/// A candidate that `dispatch` moves to in-flight: ready, with its next step in the ladder.
pub open spec fn dispatchable(c: CandView, ladder_len: int) -> bool {
    c.status == CandidateStatus::Ready && (c.next_phi_idx as int) < ladder_len
}

/// The candidate after being dispatched.
pub open spec fn in_flight(c: CandView, policy_rev: PolicyRev, incumbent_id: u64) -> CandView {
    CandView {
        status: CandidateStatus::InFlight { phi_idx: c.next_phi_idx },
        submitted_policy_rev: policy_rev,
        submitted_incumbent_id: incumbent_id,
        ..c
    }
}

/// The identifiers a batch dispatches, in order: each picked identifier of a
/// dispatchable candidate, the first time it occurs.
pub open spec fn dispatched_ids(items: Seq<CandView>, ids: Seq<CandidateId>, ladder_len: int) -> Seq<CandidateId>
    decreases ids.len(),
{
    if ids.len() == 0 {
        Seq::empty()
    } else {
        let prev = dispatched_ids(items, ids.drop_last(), ladder_len);
        let id = ids.last();
        if (exists|i: int| 0 <= i < items.len() && (#[trigger] items[i]).id == id && dispatchable(items[i], ladder_len))
            && !prev.contains(id) {
            prev.push(id)
        } else {
            prev
        }
    }
}

/// A batch dispatches each candidate at most once.
pub proof fn lemma_dispatched_ids_distinct(items: Seq<CandView>, ids: Seq<CandidateId>, ladder_len: int)
    ensures
        forall|a: int, b: int| 0 <= a < b < dispatched_ids(items, ids, ladder_len).len() ==>
            #[trigger] dispatched_ids(items, ids, ladder_len)[a] != #[trigger] dispatched_ids(items, ids, ladder_len)[b],
    decreases ids.len(),
{
    if ids.len() > 0 {
        let prev = dispatched_ids(items, ids.drop_last(), ladder_len);
        lemma_dispatched_ids_distinct(items, ids.drop_last(), ladder_len);
        let d = dispatched_ids(items, ids, ladder_len);
        assert forall|a: int, b: int| 0 <= a < b < d.len() implies #[trigger] d[a] != #[trigger] d[b] by {
            if b == prev.len() && d.len() == prev.len() + 1 {
                assert(d[a] == prev[a]);
                assert(!prev.contains(d[b]));
            } else {
                assert(d[a] == prev[a] && d[b] == prev[b]);
            }
        }
    }
}

/// The positions of ready candidates among the first `n` items, in order.
pub open spec fn ready_positions_upto(items: Seq<CandView>, n: nat) -> Seq<usize>
    decreases n,
{
    if n == 0 {
        Seq::empty()
    } else {
        let prev = ready_positions_upto(items, (n - 1) as nat);
        if items[n - 1].status == CandidateStatus::Ready {
            prev.push((n - 1) as usize)
        } else {
            prev
        }
    }
}

proof fn lemma_push_contains_other(s: Seq<CandidateId>, a: CandidateId, x: CandidateId)
    requires
        x != a,
    ensures
        s.push(a).contains(x) == s.contains(x),
{
    if s.contains(x) {
        let k = choose|k: int| 0 <= k < s.len() && s[k] == x;
        assert(s.push(a)[k] == x);
    }
    if s.push(a).contains(x) {
        let k = choose|k: int| 0 <= k < s.push(a).len() && s.push(a)[k] == x;
        assert(k < s.len());
        assert(s[k] == x);
    }
}

impl CandidateStore {
    /// The candidates, in insertion order.
    pub closed spec fn items(&self) -> Seq<CandView> {
        self.cands@.map_values(|c: CandidateStageState| c@)
    }

    /// The index agrees with the candidate list, so identifiers are unique.
    pub closed spec fn wf(&self) -> bool {
        &&& forall|i: int| 0 <= i < self.cands@.len() ==>
            #[trigger] self.index@.contains_key(self.cands@[i].id.0) && self.index@[self.cands@[i].id.0] == i
        &&& forall|k: u64| #[trigger] self.index@.contains_key(k) ==>
            self.index@[k] < self.cands@.len() && self.cands@[self.index@[k] as int].id.0 == k
    }

    /// Identifiers in a well-formed store are unique.
    pub proof fn lemma_ids_unique(&self)
        requires
            self.wf(),
        ensures
            forall|i: int, j: int| 0 <= i < self.items().len() && 0 <= j < self.items().len() && i != j ==>
                #[trigger] self.items()[i].id != #[trigger] self.items()[j].id,
    {
        assert forall|i: int, j: int| 0 <= i < self.items().len() && 0 <= j < self.items().len() && i != j implies
            #[trigger] self.items()[i].id != #[trigger] self.items()[j].id by {
            assert(self.items()[i] == self.cands@[i]@ && self.items()[j] == self.cands@[j]@);
            assert(self.index@.contains_key(self.cands@[i].id.0));
            assert(self.index@.contains_key(self.cands@[j].id.0));
        }
    }

    /// An empty store.
    pub fn new() -> (r: CandidateStore)
        ensures
            r.wf(),
            r.items() == Seq::<CandView>::empty(),
    {
        let r = CandidateStore { cands: Vec::new(), index: HashMap::new() };
        assert(r.items() =~= Seq::<CandView>::empty());
        r
    }

    /// Number of candidates.
    pub fn len(&self) -> (r: usize)
        ensures
            r == self.items().len(),
    {
        self.cands.len()
    }

    /// The position of the candidate with identifier `id`, if any.
    pub fn position(&self, id: CandidateId) -> (r: Option<usize>)
        requires
            self.wf(),
        ensures
            r matches Some(p) ==> p < self.items().len() && self.items()[p as int].id == id,
            r is None <==> !has_id(self.items(), id),
    {
        match self.index.get(&id.0) {
            Some(p) => {
                let p = *p;
                Some(p)
            },
            None => {
                proof {
                    assert forall|i: int| 0 <= i < self.items().len() implies (#[trigger] self.items()[i]).id != id by {
                        assert(self.index@.contains_key(self.cands@[i].id.0));
                    }
                }
                None
            },
        }
    }

    /// Whether a candidate with identifier `id` is stored.
    pub fn contains(&self, id: CandidateId) -> (r: bool)
        requires
            self.wf(),
        ensures
            r == has_id(self.items(), id),
    {
        match self.position(id) {
            Some(_) => true,
            None => false,
        }
    }

    /// The candidate at position `pos`.
    pub fn get(&self, pos: usize) -> (r: &CandidateStageState)
        requires
            pos < self.items().len(),
        ensures
            r@ == self.items()[pos as int],
    {
        &self.cands[pos]
    }

    /// Add `cand` unless a candidate with its identifier is already stored; returns
    /// whether it was added.
    pub fn insert_new(&mut self, cand: CandidateStageState) -> (added: bool)
        requires
            old(self).wf(),
            old(self).items().len() < usize::MAX,
        ensures
            final(self).wf(),
            added == !has_id(old(self).items(), cand.id),
            added ==> final(self).items() == old(self).items().push(cand@),
            !added ==> final(self).items() == old(self).items(),
    {
        if self.contains(cand.id) {
            return false;
        }
        let pos = self.cands.len();
        let key = cand.id.0;
        let ghost c = cand@;
        let ghost old_items = self.items();
        proof {
            assert(!self.index@.contains_key(key)) by {
                if self.index@.contains_key(key) {
                    let p = self.index@[key] as int;
                    assert(self.items()[p].id == cand.id);
                }
            }
        }
        self.cands.push(cand);
        self.index.insert(key, pos);
        proof {
            assert(self.items() =~= old_items.push(c));
            assert forall|i: int| 0 <= i < self.cands@.len() implies
                #[trigger] self.index@.contains_key(self.cands@[i].id.0) && self.index@[self.cands@[i].id.0] == i by {
                if i < pos {
                    assert(old(self).index@.contains_key(old(self).cands@[i].id.0));
                }
            }
        }
        true
    }

    /// Positions of the ready candidates, in insertion order.
    pub fn ready_positions(&self) -> (r: Vec<usize>)
        ensures
            r@ == ready_positions_upto(self.items(), self.items().len()),
    {
        let n = self.cands.len();
        let mut out: Vec<usize> = Vec::new();
        let mut i: usize = 0;
        while i < n
            invariant
                n == self.items().len(),
                i <= n,
                out@ == ready_positions_upto(self.items(), i as nat),
            decreases n - i,
        {
            let ready = match self.cands[i].status {
                CandidateStatus::Ready => true,
                _ => false,
            };
            assert(self.items()[i as int] == self.cands@[i as int]@);
            if ready {
                out.push(i);
            }
            i = i + 1;
        }
        out
    }

    /// Dispatch one batch: for each of the first `take_n` picked identifiers, a stored
    /// candidate that is ready with its next step in the ladder becomes in flight and
    /// yields a work item; other identifiers are skipped.
    pub fn dispatch_batch(
        &mut self,
        picked: &[CandidateId],
        take_n: usize,
        ladder: &[Phi],
        env_rev: EnvRev,
        policy_rev: PolicyRev,
        incumbent_id: u64,
    ) -> (r: Vec<WorkItem>)
        requires
            old(self).wf(),
        ensures
            final(self).wf(),
            final(self).items().len() == old(self).items().len(),
            ({
                let ids = picked@.take(if take_n < picked@.len() { take_n as int } else { picked@.len() as int });
                let d = dispatched_ids(old(self).items(), ids, ladder@.len() as int);
                &&& forall|i: int| 0 <= i < old(self).items().len() ==> #[trigger] final(self).items()[i] == (
                    if d.contains(old(self).items()[i].id) {
                        in_flight(old(self).items()[i], policy_rev, incumbent_id)
                    } else {
                        old(self).items()[i]
                    })
                &&& r@.len() == d.len()
                &&& forall|k: int| 0 <= k < r@.len() ==> (#[trigger] r@[k]).cand_id == d[k]
            }),
            forall|k: int, i: int| 0 <= k < r@.len() && 0 <= i < old(self).items().len()
                && (#[trigger] r@[k]).cand_id == (#[trigger] old(self).items()[i]).id ==> {
                &&& dispatchable(old(self).items()[i], ladder@.len() as int)
                &&& r@[k].x@ == old(self).items()[i].x
                &&& r@[k].phi_idx == old(self).items()[i].next_phi_idx
                &&& r@[k].phi == ladder@[r@[k].phi_idx as int]
                &&& r@[k].env_rev == env_rev
                &&& r@[k].policy_rev == policy_rev
                &&& r@[k].incumbent_id == incumbent_id
            },
    {
        let n: usize = if take_n < picked.len() { take_n } else { picked.len() };
        let ghost ids = picked@.take(n as int);
        let ghost old_items = self.items();
        let ghost len = ladder@.len() as int;
        proof {
            self.lemma_ids_unique();
        }
        let mut out: Vec<WorkItem> = Vec::new();
        let mut t: usize = 0;
        while t < n
            invariant
                n <= picked@.len(),
                ids == picked@.take(n as int),
                t <= n,
                len == ladder@.len(),
                self.wf(),
                self.items().len() == old_items.len(),
                forall|i: int, j: int| 0 <= i < old_items.len() && 0 <= j < old_items.len() && i != j ==>
                    #[trigger] old_items[i].id != #[trigger] old_items[j].id,
                forall|i: int| 0 <= i < old_items.len() ==> #[trigger] self.items()[i] == (
                    if dispatched_ids(old_items, ids.take(t as int), len).contains(old_items[i].id) {
                        in_flight(old_items[i], policy_rev, incumbent_id)
                    } else {
                        old_items[i]
                    }),
                out@.len() == dispatched_ids(old_items, ids.take(t as int), len).len(),
                forall|k: int| 0 <= k < out@.len() ==> (#[trigger] out@[k]).cand_id == dispatched_ids(old_items, ids.take(t as int), len)[k],
                forall|k: int, i: int| 0 <= k < out@.len() && 0 <= i < old_items.len()
                    && (#[trigger] out@[k]).cand_id == (#[trigger] old_items[i]).id ==> {
                    &&& dispatchable(old_items[i], len)
                    &&& out@[k].x@ == old_items[i].x
                    &&& out@[k].phi_idx == old_items[i].next_phi_idx
                    &&& out@[k].phi == ladder@[out@[k].phi_idx as int]
                    &&& out@[k].env_rev == env_rev
                    &&& out@[k].policy_rev == policy_rev
                    &&& out@[k].incumbent_id == incumbent_id
                },
            decreases n - t,
        {
            let id = picked[t];
            let ghost prev = dispatched_ids(old_items, ids.take(t as int), len);
            proof {
                assert(ids.take(t + 1).drop_last() =~= ids.take(t as int));
                assert(ids.take(t + 1).last() == id);
            }
            match self.position(id) {
                Some(p) => {
                    let ghost cur = self.items()[p as int];
                    let ghost before = self.cands@;
                    let ghost before_index = self.index@;
                    let ghost items_before = self.items();
                    assert(forall|i: int| 0 <= i < old_items.len() ==> #[trigger] items_before[i] == (
                        if prev.contains(old_items[i].id) {
                            in_flight(old_items[i], policy_rev, incumbent_id)
                        } else {
                            old_items[i]
                        }));
                    let w = self.cands[p].dispatch(ladder, env_rev, policy_rev, incumbent_id);
                    let ghost after_p = self.cands@[p as int]@;
                    proof {
                        assert(w is Some ==> after_p == in_flight(cur, policy_rev, incumbent_id));
                        assert(w is None ==> after_p == cur);
                        assert(self.cands@ == before.update(p as int, self.cands@[p as int]));
                        assert(self.index@ == before_index);
                        assert(self.cands@[p as int].id == before[p as int].id);
                        assert(cur == before[p as int]@);
                        assert forall|i: int| 0 <= i < self.cands@.len() implies
                            #[trigger] self.index@.contains_key(self.cands@[i].id.0) && self.index@[self.cands@[i].id.0] == i by {
                            assert(self.cands@[i].id == before[i].id);
                            assert(before_index.contains_key(before[i].id.0));
                        }
                        assert forall|k: u64| #[trigger] self.index@.contains_key(k) implies
                            self.index@[k] < self.cands@.len() && self.cands@[self.index@[k] as int].id.0 == k by {
                            assert(before_index.contains_key(k));
                            assert(self.cands@[self.index@[k] as int].id == before[self.index@[k] as int].id);
                        }
                        assert(old_items[p as int].id == id);
                        if prev.contains(id) {
                            assert(cur == in_flight(old_items[p as int], policy_rev, incumbent_id));
                            assert(!dispatchable(cur, len));
                        } else {
                            assert(cur == old_items[p as int]);
                        }
                    }
                    match w {
                        Some(item) => {
                            out.push(item);
                            proof {
                                assert(!prev.contains(id));
                                assert(dispatchable(old_items[p as int], len));
                                assert(dispatched_ids(old_items, ids.take(t + 1), len) == prev.push(id));
                            }
                        },
                        None => {
                            proof {
                                if !prev.contains(id) {
                                    assert(!dispatchable(old_items[p as int], len));
                                    assert forall|i: int| 0 <= i < old_items.len() && (#[trigger] old_items[i]).id == id implies
                                        !dispatchable(old_items[i], len) by {
                                        assert(i == p as int);
                                    }
                                }
                                assert(dispatched_ids(old_items, ids.take(t + 1), len) == prev);
                            }
                        },
                    }
                    proof {
                        let nd = dispatched_ids(old_items, ids.take(t + 1), len);
                        assert(nd == prev || nd == prev.push(id));
                        assert(nd.contains(id) == (prev.contains(id) || w is Some)) by {
                            if w is Some {
                                assert(nd[prev.len() as int] == id);
                            }
                        }
                        assert forall|x: CandidateId| x != id implies nd.contains(x) == prev.contains(x) by {
                            lemma_push_contains_other(prev, id, x);
                        }
                        assert forall|i: int| 0 <= i < old_items.len() implies #[trigger] self.items()[i] == (
                            if nd.contains(old_items[i].id) {
                                in_flight(old_items[i], policy_rev, incumbent_id)
                            } else {
                                old_items[i]
                            }) by {
                            assert(self.items()[i] == self.cands@[i]@);
                            if i != p as int {
                                assert(self.cands@[i] == before[i]);
                                assert(items_before[i] == before[i]@);
                                assert(old_items[i].id != id);
                                assert(nd.contains(old_items[i].id) == prev.contains(old_items[i].id));
                            } else {
                                assert(self.items()[i] == after_p);
                                assert(old_items[i].id == id);
                                if w is Some {
                                    assert(!prev.contains(id));
                                    assert(cur == old_items[i]);
                                } else {
                                    assert(nd.contains(id) == prev.contains(id));
                                }
                            }
                        }
                    }
                },
                None => {
                    proof {
                        assert forall|i: int| 0 <= i < old_items.len() implies (#[trigger] old_items[i]).id != id by {
                            assert(self.items()[i].id == old_items[i].id);
                        }
                        assert(dispatched_ids(old_items, ids.take(t + 1), len) == prev);
                    }
                },
            }
            t = t + 1;
        }
        proof {
            assert(ids.take(n as int) =~= ids);
        }
        out
    }

    /// Apply one completed step to the candidate at `pos` (see
    /// `CandidateStageState::materialize_step`); the other candidates are unchanged.
    pub fn materialize_at(
        &mut self,
        pos: usize,
        phi_idx: u32,
        phi: Phi,
        ladder: &[Phi],
        assignment: &[usize],
        gate: &PruneGate,
        audit_selected: bool,
        input: StepInput,
        stats: &mut EngineStats,
    ) -> (d: StepDecision)
        requires
            old(self).wf(),
            pos < old(self).items().len(),
            phi_idx < ladder@.len(),
            ladder@.len() <= u32::MAX,
            old(stats).has_room(),
            match input {
                StepInput::Fresh(f) => !old(self).items()[pos as int].cheap_checked ==> f.cheap is Some,
                StepInput::Cached(_) => true,
            },
        ensures
            final(self).wf(),
            ({
                let (c, dd) = step_spec(old(self).items()[pos as int], phi_idx, phi, ladder@, assignment@, *gate, audit_selected, input);
                &&& d == dd
                &&& final(self).items() == old(self).items().update(pos as int, c)
            }),
            *final(stats) == (EngineStats {
                invalid_eval_rejects: (old(stats).invalid_eval_rejects + if d.invalid_reject { 1int } else { 0int }) as u64,
                cheap_rejects: (old(stats).cheap_rejects + if d.cheap_reject { 1int } else { 0int }) as u64,
                ..*old(stats)
            }),
    {
        let ghost before = self.cands@;
        let ghost before_index = self.index@;
        let ghost old_items = self.items();
        assert(old_items[pos as int] == before[pos as int]@);
        let d = self.cands[pos].materialize_step(phi_idx, phi, ladder, assignment, gate, audit_selected, input, stats);
        proof {
            lemma_step_audit_sticky(before[pos as int]@, phi_idx, phi, ladder@, assignment@, *gate, audit_selected, input);
            assert(self.cands@ == before.update(pos as int, self.cands@[pos as int]));
            assert(self.cands@[pos as int].id == before[pos as int].id);
            assert forall|i: int| 0 <= i < self.cands@.len() implies
                #[trigger] self.index@.contains_key(self.cands@[i].id.0) && self.index@[self.cands@[i].id.0] == i by {
                assert(self.cands@[i].id == before[i].id);
                assert(before_index.contains_key(before[i].id.0));
            }
            assert forall|k: u64| #[trigger] self.index@.contains_key(k) implies
                self.index@[k] < self.cands@.len() && self.cands@[self.index@[k] as int].id.0 == k by {
                assert(before_index.contains_key(k));
                assert(self.cands@[self.index@[k] as int].id == before[self.index@[k] as int].id);
            }
            assert(self.items() =~= old_items.update(pos as int, self.cands@[pos as int]@));
        }
        d
    }
}

} // verus!
