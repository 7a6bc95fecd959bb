//! Deterministic randomness for the search policies: the SplitMix64 generator,
//! the seeds derived from the run environment, candidate identifiers, and the
//! choice of coordinates that a coordinate step perturbs.
//!
//! The floating-point parts of the search policies (step lengths, Halton points,
//! scores) live outside; they draw their integers from the generator here.

use vstd::prelude::*;
use crate::types::{CandidateId, Env};

verus! {

/// The SplitMix64 increment (the golden-ratio gamma).
pub const SPLITMIX_GAMMA: u64 = 0x9E37_79B9_7F4A_7C15u64;

/// Addition modulo 2^64.
pub open spec fn wrap_add(a: u64, b: u64) -> u64 {
    if a + b > u64::MAX {
        (a + b - 0x1_0000_0000_0000_0000int) as u64
    } else {
        (a + b) as u64
    }
}

/// Multiplication modulo 2^64.
pub open spec fn wrap_mul(a: u64, b: u64) -> u64 {
    ((a as nat * b as nat) % 0x1_0000_0000_0000_0000nat) as u64
}

/// The SplitMix64 finaliser applied to an already advanced state.
pub open spec fn splitmix_mix(z0: u64) -> u64 {
    let z1 = wrap_mul(z0 ^ (z0 >> 30u64), 0xBF58_476D_1CE4_E5B9u64);
    let z2 = wrap_mul(z1 ^ (z1 >> 27u64), 0x94D0_49BB_1331_11EBu64);
    z2 ^ (z2 >> 31u64)
}

/// The state after `k` steps from state `s`.
pub open spec fn advance(s: u64, k: nat) -> u64
    decreases k,
{
    if k == 0 {
        s
    } else {
        wrap_add(advance(s, (k - 1) as nat), SPLITMIX_GAMMA)
    }
}

/// The `k`-th output (0-based) of a generator that starts in state `s`.
pub open spec fn nth_output(s: u64, k: nat) -> u64 {
    splitmix_mix(advance(s, k + 1))
}

/// The SplitMix64 finaliser.
pub fn splitmix_finalize(z: u64) -> (r: u64)
    ensures
        r == splitmix_mix(z),
{
    let z1 = (z ^ (z >> 30u64)).wrapping_mul(0xBF58_476D_1CE4_E5B9u64);
    let z2 = (z1 ^ (z1 >> 27u64)).wrapping_mul(0x94D0_49BB_1331_11EBu64);
    z2 ^ (z2 >> 31u64)
}

/// Deterministic SplitMix64 pseudo-random generator.
#[derive(Clone, Debug)]
pub struct SplitMix64 {
    state: u64,
}

impl View for SplitMix64 {
    type V = u64;

    closed spec fn view(&self) -> u64 {
        self.state
    }
}

impl SplitMix64 {
    /// A generator in state `seed`.
    pub fn new(seed: u64) -> (r: SplitMix64)
        ensures
            r@ == seed,
    {
        SplitMix64 { state: seed }
    }

    /// Advance the state by the gamma and return the finalised state.
    pub fn next_u64(&mut self) -> (r: u64)
        ensures
            final(self)@ == wrap_add(old(self)@, SPLITMIX_GAMMA),
            r == splitmix_mix(final(self)@),
            r == nth_output(old(self)@, 0),
    {
        self.state = self.state.wrapping_add(SPLITMIX_GAMMA);
        proof {
            reveal_with_fuel(advance, 2);
        }
        splitmix_finalize(self.state)
    }

    /// A draw in `lo..hi_exclusive`: `lo` plus the next output modulo the span.
    pub fn next_i64_range(&mut self, lo: i64, hi_exclusive: i64) -> (r: i64)
        requires
            lo < hi_exclusive,
            hi_exclusive - lo <= i64::MAX,
        ensures
            final(self)@ == wrap_add(old(self)@, SPLITMIX_GAMMA),
            r == lo + (nth_output(old(self)@, 0) % ((hi_exclusive - lo) as u64)),
            lo <= r < hi_exclusive,
    {
        let span = (hi_exclusive - lo) as u64;
        let d = self.next_u64();
        let off = d % span;
        lo + off as i64
    }
}

/// Seed of a search policy's generator for a run: the low 64 bits of the master
/// seed xor the low 64 bits of the run id.
pub open spec fn search_seed_spec(env: Env) -> u64 {
    (env.rng_master_seed as u64) ^ (env.run_id as u64)
}

/// Seed of a search policy's generator for the run `env`.
pub fn search_seed(env: &Env) -> (r: u64)
    ensures
        r == search_seed_spec(*env),
{
    (env.rng_master_seed as u64) ^ (env.run_id as u64)
}

/// First Halton index of a run: the high half of the low 64 master-seed bits
/// times a fixed odd constant, modulo 2^64.
pub fn halton_start_index(env: &Env) -> (r: u64)
    ensures
        r == wrap_mul(env.rng_master_seed as u64, 0x517c_c1b7_2722_0a95u64) >> 32u64,
{
    (env.rng_master_seed as u64).wrapping_mul(0x517c_c1b7_2722_0a95u64) >> 32u64
}

/// Iteration-local search state.
#[derive(Clone, Copy, Debug, PartialEq, Eq, Structural)]
pub struct SearchState {
    pub iter: u64,
}

impl SearchState {
    /// The identifier of the `next`-th proposal of this iteration: the iteration in
    /// the high 32 bits, or-ed with `next`.
    pub fn candidate_id(&self, next: u64) -> (r: CandidateId)
        ensures
            r.0 == (self.iter << 32u64) | next,
    {
        CandidateId((self.iter << 32u64) | next)
    }
}

// ----------------------------
// Coordinate selection
// ----------------------------

/// Smaller of `a` and `b`.
pub open spec fn min_nat(a: nat, b: nat) -> nat {
    if a <= b { a } else { b }
}

/// Number of coordinates a coordinate step perturbs, from its first draw `d0`:
/// one plus `d0` modulo `min(dim, 6)`.
pub open spec fn perturb_count(dim: nat, d0: u64) -> nat {
    1 + ((d0 as usize) % (min_nat(dim, 6) as usize)) as nat
}

/// Exchange the entries at `i` and `j`.
pub open spec fn swap_at(v: Seq<usize>, i: int, j: int) -> Seq<usize> {
    v.update(i, v[j]).update(j, v[i])
}

/// The partner of position `i` in the partial Fisher-Yates shuffle: `i` plus the
/// draw modulo the number of remaining positions.
pub open spec fn shuffle_partner(len: nat, i: nat, d: u64) -> int {
    i + ((d as usize) % ((len - i) as usize)) as int
}

/// The first `n` steps of a partial Fisher-Yates shuffle of `v`, step `i` using
/// output `i + 1` of a generator started in state `s`.
pub open spec fn shuffle_steps(v: Seq<usize>, s: u64, n: nat) -> Seq<usize>
    decreases n,
{
    if n == 0 {
        v
    } else {
        let i = (n - 1) as nat;
        let prev = shuffle_steps(v, s, i);
        swap_at(prev, i as int, shuffle_partner(v.len(), i, nth_output(s, i + 1)))
    }
}

/// The indices `0..dim` in order.
pub open spec fn iota(dim: nat) -> Seq<usize> {
    Seq::new(dim, |i: int| i as usize)
}

/// The coordinates a coordinate step perturbs, for a generator in state `s`.
pub open spec fn coordinate_picks(dim: nat, s: u64) -> Seq<usize> {
    let n = perturb_count(dim, nth_output(s, 0));
    shuffle_steps(iota(dim), s, n).take(n as int)
}

/// `v` holds distinct indices below `dim`, one per position.
pub open spec fn is_index_perm(v: Seq<usize>, dim: nat) -> bool {
    &&& v.len() == dim
    &&& forall|a: int| 0 <= a < dim ==> #[trigger] v[a] < dim
    &&& forall|a: int, b: int| 0 <= a < dim && 0 <= b < dim && a != b ==> #[trigger] v[a] != #[trigger] v[b]
}

proof fn lemma_iota_perm(dim: nat)
    requires
        dim <= usize::MAX,
    ensures
        is_index_perm(iota(dim), dim),
{
    let v = iota(dim);
    assert forall|a: int, b: int| 0 <= a < dim && 0 <= b < dim && a != b implies #[trigger] v[a] != #[trigger] v[b] by {
        assert(v[a] == a as usize && v[b] == b as usize);
    }
}

proof fn lemma_swap_keeps_perm(v: Seq<usize>, dim: nat, i: int, j: int)
    requires
        is_index_perm(v, dim),
        0 <= i < dim,
        0 <= j < dim,
    ensures
        is_index_perm(swap_at(v, i, j), dim),
{
    let w = swap_at(v, i, j);
    assert forall|a: int, b: int| 0 <= a < dim && 0 <= b < dim && a != b implies #[trigger] w[a] != #[trigger] w[b] by {
        let pa = if a == j { i } else if a == i { j } else { a };
        let pb = if b == j { i } else if b == i { j } else { b };
        assert(w[a] == v[pa]);
        assert(w[b] == v[pb]);
    }
}

/// Run steps `from..n` of the partial shuffle on `v`, drawing from `rng`.
fn shuffle_prefix(v: &mut Vec<usize>, rng: &mut SplitMix64, n: usize, Ghost(s0): Ghost<u64>)
    requires
        n <= old(v)@.len(),
        old(v)@ == shuffle_steps(iota(old(v)@.len()), s0, 0),
        is_index_perm(old(v)@, old(v)@.len()),
        old(rng)@ == advance(s0, 1),
    ensures
        final(v)@ == shuffle_steps(iota(old(v)@.len()), s0, n as nat),
        is_index_perm(final(v)@, old(v)@.len()),
        final(rng)@ == advance(s0, (n + 1) as nat),
{
    let dim = v.len();
    let mut i: usize = 0;
    while i < n
        invariant
            n <= dim,
            i <= n,
            v@.len() == dim,
            v@ == shuffle_steps(iota(dim as nat), s0, i as nat),
            is_index_perm(v@, dim as nat),
            rng@ == advance(s0, (i + 1) as nat),
        decreases n - i,
    {
        let d = rng.next_u64();
        let j = i + (d as usize) % (dim - i);
        proof {
            lemma_swap_keeps_perm(v@, dim as nat, i as int, j as int);
        }
        assert(d == nth_output(s0, (i + 1) as nat));
        assert(j as int == shuffle_partner(iota(dim as nat).len(), i as nat, d));
        let a = v[i];
        let b = v[j];
        v.set(i, b);
        v.set(j, a);
        assert(v@ =~= swap_at(shuffle_steps(iota(dim as nat), s0, i as nat), i as int, j as int));
        i = i + 1;
    }
}

/// Pick the coordinates of a coordinate step in a space of `dim` dimensions:
/// between one and `min(dim, 6)` distinct coordinates, drawn by a partial
/// Fisher-Yates shuffle. Consumes one draw for the count and one per coordinate.
pub fn pick_coordinates(rng: &mut SplitMix64, dim: usize) -> (r: Vec<usize>)
    requires
        dim >= 1,
    ensures
        r@ == coordinate_picks(dim as nat, old(rng)@),
        final(rng)@ == advance(old(rng)@, (r.len() + 1) as nat),
        1 <= r.len() <= min_nat(dim as nat, 6),
        forall|a: int| 0 <= a < r.len() ==> r@[a] < dim,
        forall|a: int, b: int| 0 <= a < b < r.len() ==> r@[a] != r@[b],
{
    let ghost s0 = old(rng)@;
    let max_perturb: usize = if dim < 6 { dim } else { 6 };
    let d0 = rng.next_u64();
    proof {
        reveal_with_fuel(advance, 2);
    }
    let n: usize = 1 + (d0 as usize) % max_perturb;
    assert(n == perturb_count(dim as nat, nth_output(s0, 0)));

    let mut indices: Vec<usize> = Vec::new();
    let mut k: usize = 0;
    while k < dim
        invariant
            k <= dim,
            indices@ == iota(k as nat),
        decreases dim - k,
    {
        indices.push(k);
        k = k + 1;
        assert(indices@ =~= iota(k as nat));
    }
    proof {
        lemma_iota_perm(dim as nat);
    }
    shuffle_prefix(&mut indices, rng, n, Ghost(s0));

    let mut out: Vec<usize> = Vec::new();
    let mut t: usize = 0;
    while t < n
        invariant
            t <= n,
            n <= dim,
            indices@.len() == dim,
            out@ == indices@.take(t as int),
        decreases n - t,
    {
        out.push(indices[t]);
        t = t + 1;
        assert(out@ =~= indices@.take(t as int));
    }
    proof {
        assert forall|a: int, b: int| 0 <= a < b < out@.len() implies out@[a] != out@[b] by {
            assert(out@[a] == indices@[a] && out@[b] == indices@[b]);
        }
        assert forall|a: int| 0 <= a < out@.len() implies out@[a] < dim by {
            assert(out@[a] == indices@[a]);
        }
    }
    out
}

} // verus!
