//! Integer mesh lattice: the mesh multiplier, its refinement and the poll step.
//!
//! A point of the mesh is a vector of base-lattice units; the continuous step of
//! one base unit (a float) is held by the caller. The current mesh consists of the
//! points whose coordinates are multiples of `mesh_mul`.

use vstd::prelude::*;

verus! {

/// The divisor actually used by refinement: at least 2.
pub open spec fn eff_div(refine_div: i64) -> int {
    if refine_div < 2 { 2 } else { refine_div as int }
}

/// The floor actually used by refinement: at least 1.
pub open spec fn eff_min(mesh_mul_min: i64) -> int {
    if mesh_mul_min < 1 { 1 } else { mesh_mul_min as int }
}

/// The poll multiplier actually used: at least 1.
pub open spec fn eff_mult(poll_step_mult: i64) -> int {
    if poll_step_mult < 1 { 1 } else { poll_step_mult as int }
}

/// One refinement of a mesh multiplier: integer division by the divisor,
/// never below the floor; a multiplier at or below the floor is left alone.
pub open spec fn refined_mul(mesh_mul: int, refine_div: i64, mesh_mul_min: i64) -> int {
    if mesh_mul > eff_min(mesh_mul_min) {
        let next = mesh_mul / eff_div(refine_div);
        if next > eff_min(mesh_mul_min) { next } else { eff_min(mesh_mul_min) }
    } else {
        mesh_mul
    }
}

/// Isotropic mesh lattice in base-lattice units.
///
/// - `mesh_mul` is the current mesh spacing multiplier (Δ = Δ₀ * mesh_mul).
/// - Refinement divides `mesh_mul` by `refine_div` (integer only), never below `mesh_mul_min`.
#[derive(Clone, Copy, Debug, PartialEq, Eq, Structural)]
pub struct MeshLattice {
    pub mesh_mul: i64,
    pub mesh_mul_min: i64,
    pub refine_div: i64,
    pub poll_step_mult: i64,
}

impl MeshLattice {
    /// The lattice a run starts with: the initial multiplier and the floor at least 1,
    /// the divisor at least 2, the poll multiplier at least 1.
    pub fn from_config(mesh_mul_init: i64, mesh_mul_min: i64, refine_div: i64, poll_step_mult: i64) -> (r: MeshLattice)
        ensures
            r.mesh_mul as int == (if mesh_mul_init < 1 { 1 } else { mesh_mul_init as int }),
            r.mesh_mul_min as int == eff_min(mesh_mul_min),
            r.refine_div as int == eff_div(refine_div),
            r.poll_step_mult as int == eff_mult(poll_step_mult),
    {
        MeshLattice {
            mesh_mul: if mesh_mul_init < 1 { 1 } else { mesh_mul_init },
            mesh_mul_min: if mesh_mul_min < 1 { 1 } else { mesh_mul_min },
            refine_div: if refine_div < 2 { 2 } else { refine_div },
            poll_step_mult: if poll_step_mult < 1 { 1 } else { poll_step_mult },
        }
    }

    /// Refine (shrink) the mesh spacing. This is the only adaptive mesh update.
    pub fn refine(&mut self)
        ensures
            final(self).mesh_mul as int == refined_mul(old(self).mesh_mul as int, old(self).refine_div, old(self).mesh_mul_min),
            final(self).mesh_mul_min == old(self).mesh_mul_min,
            final(self).refine_div == old(self).refine_div,
            final(self).poll_step_mult == old(self).poll_step_mult,
    {
        let div: i64 = if self.refine_div < 2 { 2 } else { self.refine_div };
        let minm: i64 = if self.mesh_mul_min < 1 { 1 } else { self.mesh_mul_min };
        if self.mesh_mul > minm {
            let next = self.mesh_mul / div;
            self.mesh_mul = if next > minm { next } else { minm };
        }
    }

    /// Poll step in base-lattice units: `mesh_mul * max(poll_step_mult, 1)`.
    pub fn poll_step_units(&self) -> (r: i64)
        requires
            i64::MIN <= self.mesh_mul * eff_mult(self.poll_step_mult) <= i64::MAX,
        ensures
            r as int == self.mesh_mul * eff_mult(self.poll_step_mult),
    {
        let mult: i64 = if self.poll_step_mult < 1 { 1 } else { self.poll_step_mult };
        self.mesh_mul * mult
    }

    /// Broadcast the scalar multiplier to `dim` dimensions.
    pub fn to_anisotropic(&self, dim: usize) -> (r: AnisotropicMeshLattice)
        ensures
            r.mesh_muls@ == Seq::new(dim as nat, |i: int| self.mesh_mul),
            r.mesh_mul_min == self.mesh_mul_min,
            r.refine_div == self.refine_div,
            r.poll_step_mult == self.poll_step_mult,
    {
        let mut muls: Vec<i64> = Vec::with_capacity(dim);
        let mut i: usize = 0;
        while i < dim
            invariant
                i <= dim,
                muls@ == Seq::new(i as nat, |k: int| self.mesh_mul),
            decreases dim - i,
        {
            muls.push(self.mesh_mul);
            i = i + 1;
        }
        AnisotropicMeshLattice {
            mesh_muls: muls,
            mesh_mul_min: self.mesh_mul_min,
            refine_div: self.refine_div,
            poll_step_mult: self.poll_step_mult,
        }
    }
}

/// Per-dimension mesh lattice; multipliers are refined uniformly.
#[derive(Clone, Debug)]
pub struct AnisotropicMeshLattice {
    pub mesh_muls: Vec<i64>,
    pub mesh_mul_min: i64,
    pub refine_div: i64,
    pub poll_step_mult: i64,
}

impl AnisotropicMeshLattice {
    /// Refine (shrink) all mesh multipliers by integer division.
    pub fn refine(&mut self)
        ensures
            final(self).mesh_muls@.len() == old(self).mesh_muls@.len(),
            forall|i: int| 0 <= i < old(self).mesh_muls@.len() ==>
                #[trigger] final(self).mesh_muls@[i] as int
                    == refined_mul(old(self).mesh_muls@[i] as int, old(self).refine_div, old(self).mesh_mul_min),
            final(self).mesh_mul_min == old(self).mesh_mul_min,
            final(self).refine_div == old(self).refine_div,
            final(self).poll_step_mult == old(self).poll_step_mult,
    {
        let div: i64 = if self.refine_div < 2 { 2 } else { self.refine_div };
        let minm: i64 = if self.mesh_mul_min < 1 { 1 } else { self.mesh_mul_min };
        let n = self.mesh_muls.len();
        let mut i: usize = 0;
        while i < n
            invariant
                n == self.mesh_muls@.len(),
                n == old(self).mesh_muls@.len(),
                i <= n,
                div as int == eff_div(self.refine_div),
                minm as int == eff_min(self.mesh_mul_min),
                self.mesh_mul_min == old(self).mesh_mul_min,
                self.refine_div == old(self).refine_div,
                self.poll_step_mult == old(self).poll_step_mult,
                forall|k: int| 0 <= k < i ==>
                    #[trigger] self.mesh_muls@[k] as int
                        == refined_mul(old(self).mesh_muls@[k] as int, old(self).refine_div, old(self).mesh_mul_min),
                forall|k: int| i <= k < n ==> #[trigger] self.mesh_muls@[k] == old(self).mesh_muls@[k],
            decreases n - i,
        {
            let mm = self.mesh_muls[i];
            if mm > minm {
                let next = mm / div;
                let v: i64 = if next > minm { next } else { minm };
                self.mesh_muls.set(i, v);
            }
            i = i + 1;
        }
    }

    /// Poll step in base-lattice units per dimension.
    pub fn poll_step_units(&self) -> (r: Vec<i64>)
        requires
            forall|i: int| 0 <= i < self.mesh_muls@.len() ==>
                i64::MIN <= #[trigger] self.mesh_muls@[i] * eff_mult(self.poll_step_mult) <= i64::MAX,
        ensures
            r@.len() == self.mesh_muls@.len(),
            forall|i: int| 0 <= i < r@.len() ==>
                #[trigger] r@[i] as int == self.mesh_muls@[i] * eff_mult(self.poll_step_mult),
    {
        let mult: i64 = if self.poll_step_mult < 1 { 1 } else { self.poll_step_mult };
        let n = self.mesh_muls.len();
        let mut out: Vec<i64> = Vec::with_capacity(n);
        let mut i: usize = 0;
        while i < n
            invariant
                n == self.mesh_muls@.len(),
                i <= n,
                mult as int == eff_mult(self.poll_step_mult),
                forall|k: int| 0 <= k < self.mesh_muls@.len() ==>
                    i64::MIN <= #[trigger] self.mesh_muls@[k] * eff_mult(self.poll_step_mult) <= i64::MAX,
                out@.len() == i,
                forall|k: int| 0 <= k < i ==> #[trigger] out@[k] as int == self.mesh_muls@[k] * eff_mult(self.poll_step_mult),
            decreases n - i,
        {
            let mm = self.mesh_muls[i];
            assert(i64::MIN <= self.mesh_muls@[i as int] * eff_mult(self.poll_step_mult) <= i64::MAX);
            out.push(mm * mult);
            i = i + 1;
        }
        out
    }

    /// Dimension count.
    pub fn dim(&self) -> (r: usize)
        ensures
            r == self.mesh_muls@.len(),
    {
        self.mesh_muls.len()
    }
}

/// Refinement never grows the multiplier, and never leaves the floor once above it.
pub proof fn lemma_refine_monotone(mesh_mul: int, refine_div: i64, mesh_mul_min: i64)
    ensures
        refined_mul(mesh_mul, refine_div, mesh_mul_min) <= mesh_mul,
        mesh_mul > eff_min(mesh_mul_min) ==> refined_mul(mesh_mul, refine_div, mesh_mul_min) >= eff_min(mesh_mul_min),
        mesh_mul > eff_min(mesh_mul_min) ==> refined_mul(mesh_mul, refine_div, mesh_mul_min) < mesh_mul,
        mesh_mul <= eff_min(mesh_mul_min) ==> refined_mul(mesh_mul, refine_div, mesh_mul_min) == mesh_mul,
{
    let d = eff_div(refine_div);
    let m = eff_min(mesh_mul_min);
    if mesh_mul > m {
        assert(mesh_mul / d < mesh_mul) by (nonlinear_arith)
            requires mesh_mul > 0, d >= 2;
    }
}

/// Nested meshes: when the multiplier is divisible by the divisor and refinement does
/// not hit the floor, every point of the coarse mesh is a point of the refined mesh.
pub proof fn lemma_refine_nested(mesh_mul: int, refine_div: i64, mesh_mul_min: i64, x: int)
    requires
        mesh_mul > eff_min(mesh_mul_min),
        mesh_mul % eff_div(refine_div) == 0,
        mesh_mul / eff_div(refine_div) >= eff_min(mesh_mul_min),
        x % mesh_mul == 0,
    ensures
        x % refined_mul(mesh_mul, refine_div, mesh_mul_min) == 0,
{
    let d = eff_div(refine_div);
    let q = mesh_mul / d;
    assert(refined_mul(mesh_mul, refine_div, mesh_mul_min) == q);
    assert(mesh_mul == q * d) by (nonlinear_arith)
        requires mesh_mul % d == 0, d >= 2, q == mesh_mul / d;
    let k = x / mesh_mul;
    assert(x == k * mesh_mul) by (nonlinear_arith)
        requires x % mesh_mul == 0, mesh_mul > 0, k == x / mesh_mul;
    assert(x == (k * d) * q) by (nonlinear_arith)
        requires x == k * mesh_mul, mesh_mul == q * d;
    assert(x % q == 0) by (nonlinear_arith)
        requires x == (k * d) * q, q >= 1;
}

} // verus!
