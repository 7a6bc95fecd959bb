//! DIDS history and assignment bookkeeping.
//!
//! The history keeps the most recent completed work items; the assignment `a_j`
//! (1-based fidelity level) is the lowest level at which constraint `j` may be cut
//! early. Weighting the observations and the confidence rules are floating point
//! and run outside; they read the observations and commit their result here.

use vstd::prelude::*;
use crate::calibrator::PolicyRevDelta;
use crate::types::{Phi, XMesh};
use crate::window::{effective_cap, keep_last, push_bounded};

verus! {

/// Outcome class of a completed work item.
#[derive(Clone, Copy, Debug, PartialEq, Eq, Structural)]
pub enum OutcomeTag {
    RejectedCheap,
    RejectedInvalidEval,
    EarlyInfeasible,
    Partial,
    Truth,
}

/// One completed work item.
#[derive(Clone, Debug)]
pub struct DidsRecord {
    pub x: XMesh,
    pub phi: Phi,
    pub phi_idx: u32,
    pub outcome: OutcomeTag,
    /// The violated constraint of an early-infeasible outcome.
    pub violated_j: Option<usize>,
}

/// The recorded work items, oldest first.
#[derive(Clone, Debug)]
pub struct DidsHistory {
    pub records: Vec<DidsRecord>,
}

impl View for DidsHistory {
    type V = Seq<DidsRecord>;

    open spec fn view(&self) -> Seq<DidsRecord> {
        self.records@
    }
}

/// An observed early cut, as the assignment rule weighs it.
#[derive(Clone, Copy, Debug, PartialEq, Eq, Structural)]
pub struct EarlyCut {
    /// The violated constraint.
    pub j: usize,
    /// The 1-based fidelity level of the cut, clamped to `1..=L`.
    pub level: usize,
    /// How many records were completed after this one.
    pub age: usize,
}

/// The level `phi_idx + 1` clamped to `1..=l` (for `l >= 1`).
pub open spec fn clamped_level(phi_idx: u32, l: nat) -> usize {
    if phi_idx < l { (phi_idx + 1) as usize } else { l as usize }
}

/// The early cuts among `rs` whose violated constraint is below `m`, in order, for
/// a history of `total` records with ladder length `l`.
pub open spec fn early_cuts(rs: Seq<DidsRecord>, m: nat, l: nat, total: nat) -> Seq<EarlyCut>
    decreases rs.len(),
{
    if rs.len() == 0 {
        Seq::empty()
    } else {
        let prev = early_cuts(rs.drop_last(), m, l, total);
        let r = rs.last();
        let idx = rs.len() - 1;
        if r.outcome == OutcomeTag::EarlyInfeasible && r.violated_j is Some && r.violated_j->0 < m {
            prev.push(EarlyCut {
                j: r.violated_j->0,
                level: clamped_level(r.phi_idx, l),
                age: (total - (idx + 1)) as usize,
            })
        } else {
            prev
        }
    }
}

/// The ladder length used by the assignment: at least one.
pub open spec fn effective_len(ladder_len: usize) -> nat {
    if ladder_len == 0 { 1 } else { ladder_len as nat }
}

impl DidsHistory {
    /// An empty history.
    pub fn new() -> (r: DidsHistory)
        ensures
            r@ == Seq::<DidsRecord>::empty(),
    {
        DidsHistory { records: Vec::new() }
    }

    /// Number of recorded items.
    pub fn len(&self) -> (r: usize)
        ensures
            r == self@.len(),
    {
        self.records.len()
    }

    /// Append `rec`, then drop the oldest records beyond `max(max_records, 1)`.
    pub fn record(&mut self, rec: DidsRecord, max_records: usize)
        ensures
            final(self)@ == keep_last(old(self)@.push(rec), effective_cap(max_records)),
    {
        push_bounded(&mut self.records, rec, max_records);
    }

    /// The early cuts in the history whose constraint is below `m`, oldest first,
    /// with their level clamped to `1..=max(ladder_len, 1)` and their age.
    pub fn early_cut_observations(&self, m: usize, ladder_len: usize) -> (r: Vec<EarlyCut>)
        ensures
            r@ == early_cuts(self@, m as nat, effective_len(ladder_len), self@.len()),
    {
        let l: usize = if ladder_len == 0 { 1 } else { ladder_len };
        let n = self.records.len();
        let mut out: Vec<EarlyCut> = Vec::new();
        let mut idx: usize = 0;
        while idx < n
            invariant
                n == self@.len(),
                idx <= n,
                l == effective_len(ladder_len),
                out@ == early_cuts(self@.take(idx as int), m as nat, l as nat, n as nat),
            decreases n - idx,
        {
            let r = &self.records[idx];
            proof {
                assert(self@.take(idx + 1).drop_last() =~= self@.take(idx as int));
                assert(self@.take(idx + 1).last() == self@[idx as int]);
            }
            if r.outcome == OutcomeTag::EarlyInfeasible {
                match r.violated_j {
                    Some(j) => {
                        if j < m {
                            let level: usize = if (r.phi_idx as usize) < l {
                                r.phi_idx as usize + 1
                            } else {
                                l
                            };
                            out.push(EarlyCut { j, level, age: n - (idx + 1) });
                        }
                    },
                    None => {},
                }
            }
            idx = idx + 1;
        }
        assert(self@.take(n as int) =~= self@);
        out
    }
}

/// Every observed early cut names a constraint below `m`, a level in `1..=l` and an
/// age below the history length.
pub proof fn lemma_early_cuts_bounds(rs: Seq<DidsRecord>, m: nat, l: nat, total: nat)
    requires
        1 <= l <= usize::MAX,
        rs.len() <= total <= usize::MAX,
    ensures
        early_cuts(rs, m, l, total).len() <= rs.len(),
        forall|k: int| 0 <= k < early_cuts(rs, m, l, total).len() ==> {
            let e = #[trigger] early_cuts(rs, m, l, total)[k];
            &&& e.j < m
            &&& 1 <= e.level <= l
            &&& e.age < total
        },
    decreases rs.len(),
{
    if rs.len() > 0 {
        lemma_early_cuts_bounds(rs.drop_last(), m, l, total);
    }
}

/// Each entry clamped to `1..=l`.
pub open spec fn clamped_levels(s: Seq<usize>, l: nat) -> Seq<usize> {
    s.map_values(|a: usize| if a < 1 { 1usize } else if a > l { l as usize } else { a })
}

/// Clamp every assignment level into `1..=max(ladder_len, 1)`.
pub fn clamp_levels(levels: &mut Vec<usize>, ladder_len: usize)
    ensures
        final(levels)@ == clamped_levels(old(levels)@, effective_len(ladder_len)),
        forall|j: int| 0 <= j < final(levels)@.len() ==> 1 <= #[trigger] final(levels)@[j] <= effective_len(ladder_len),
{
    let l: usize = if ladder_len == 0 { 1 } else { ladder_len };
    let n = levels.len();
    let mut i: usize = 0;
    while i < n
        invariant
            n == levels@.len(),
            n == old(levels)@.len(),
            i <= n,
            l == effective_len(ladder_len),
            forall|k: int| 0 <= k < i ==> levels@[k] == clamped_levels(old(levels)@, l as nat)[k],
            forall|k: int| i <= k < n ==> levels@[k] == old(levels)@[k],
        decreases n - i,
    {
        let a = levels[i];
        let c = if a < 1 { 1 } else if a > l { l } else { a };
        levels.set(i, c);
        i = i + 1;
    }
    assert(levels@ =~= clamped_levels(old(levels)@, l as nat));
}

/// Replace the current assignment by `next`; the policy revision moves by one
/// exactly when the assignment changed.
pub fn commit_assignment(current: &mut Vec<usize>, next: Vec<usize>) -> (d: PolicyRevDelta)
    ensures
        final(current)@ == next@,
        d.0 == (if next@ == old(current)@ { 0u64 } else { 1u64 }),
{
    let n = next.len();
    let mut same = n == current.len();
    let mut i: usize = 0;
    while same && i < n
        invariant
            n == next@.len(),
            i <= n,
            same ==> n == current@.len(),
            same ==> forall|k: int| 0 <= k < i ==> next@[k] == current@[k],
            !same ==> next@ != current@,
        decreases n - i + (if same { 1int } else { 0int }),
    {
        if next[i] != current[i] {
            same = false;
        } else {
            i = i + 1;
        }
    }
    proof {
        if same {
            assert(next@ =~= current@);
        }
    }
    *current = next;
    if same {
        PolicyRevDelta(0)
    } else {
        PolicyRevDelta(1)
    }
}

} // verus!
