//! Bounded windows: append an item and keep only the most recent ones.

use vstd::prelude::*;

verus! {

/// The last `cap` entries of `s` (all of `s` when it is shorter).
pub open spec fn keep_last<T>(s: Seq<T>, cap: nat) -> Seq<T> {
    if s.len() > cap { s.subrange(s.len() - cap, s.len() as int) } else { s }
}

/// The capacity actually used: `cap`, but at least one.
pub open spec fn effective_cap(cap: usize) -> nat {
    if cap == 0 { 1 } else { cap as nat }
}

/// Append `x`, then drop the oldest entries beyond `max(cap, 1)`.
pub fn push_bounded<T>(v: &mut Vec<T>, x: T, cap: usize)
    ensures
        final(v)@ == keep_last(old(v)@.push(x), effective_cap(cap)),
{
    v.push(x);
    let c: usize = if cap == 0 { 1 } else { cap };
    if v.len() > c {
        let excess = v.len() - c;
        let kept = v.split_off(excess);
        *v = kept;
    }
}

/// A bounded window never holds more than its capacity, and its newest entry is the
/// one just pushed.
pub proof fn lemma_window_bounded<T>(s: Seq<T>, x: T, cap: usize)
    ensures
        keep_last(s.push(x), effective_cap(cap)).len() <= effective_cap(cap),
        keep_last(s.push(x), effective_cap(cap)).last() == x,
{
}

} // verus!
