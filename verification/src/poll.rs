//! The sealed poll generator: axis-aligned positive spanning sets on the mesh.

use vstd::prelude::*;
use crate::types::XMesh;

verus! {

/// Saturating addition of two `i64` values, as a mathematical statement.
pub open spec fn sat_add_i64(a: int, b: int) -> i64 {
    if a + b > i64::MAX {
        i64::MAX
    } else if a + b < i64::MIN {
        i64::MIN
    } else {
        (a + b) as i64
    }
}

/// Saturating addition on `i64`.
pub fn saturating_add_i64(a: i64, b: i64) -> (r: i64)
    ensures
        r == sat_add_i64(a as int, b as int),
{
    if b > 0 && a > i64::MAX - b {
        i64::MAX
    } else if b < 0 && a < i64::MIN - b {
        i64::MIN
    } else {
        a + b
    }
}

/// Saturating subtraction on `i64`.
pub fn saturating_sub_i64(a: i64, b: i64) -> (r: i64)
    ensures
        r == sat_add_i64(a as int, -(b as int)),
{
    if b < 0 && a > i64::MAX + b {
        i64::MAX
    } else if b > 0 && a < i64::MIN + b {
        i64::MIN
    } else {
        a - b
    }
}

/// The poll point that moves coordinate `i` of `center` by `delta`, saturating.
pub open spec fn axis_point(center: Seq<i64>, i: int, delta: int) -> Seq<i64> {
    center.update(i, sat_add_i64(center[i] as int, delta))
}

/// The poll set around `center` with per-axis steps `steps`: for each axis `i`,
/// first the point moved by `+steps[i]`, then the point moved by `-steps[i]`.
pub open spec fn poll_set(center: Seq<i64>, steps: Seq<int>, k: int) -> Seq<i64> {
    if k % 2 == 0 {
        axis_point(center, k / 2, steps[k / 2])
    } else {
        axis_point(center, k / 2, -steps[k / 2])
    }
}

/// The step used on every axis by `generate_points`.
pub open spec fn iso_step(step: i64) -> int {
    if step < 1 { 1 } else { step as int }
}

/// The step used on axis `i` by `generate_points_aniso`.
pub open spec fn aniso_step(steps: Seq<i64>, i: int) -> int {
    if 0 <= i < steps.len() && steps[i] >= 1 { steps[i] as int } else { 1 }
}

/// Marker for the poll generators the engine accepts.
pub trait Sealed {}

/// Placeholder type for the poll generator.
#[derive(Clone, Debug, Default)]
pub struct DefaultPoll;

impl Sealed for DefaultPoll {}

impl DefaultPoll {
    /// Generate axis-aligned poll points around `center` with integer step in base-lattice units.
    ///
    /// The step is at least 1; each coordinate move saturates at the `i64` bounds.
    pub fn generate_points(center: &XMesh, step: i64) -> (out: Vec<XMesh>)
        requires
            2 * center@.len() <= usize::MAX,
        ensures
            out@.len() == 2 * center@.len(),
            forall|k: int| 0 <= k < out@.len() ==>
                #[trigger] out@[k]@ == poll_set(center@, Seq::new(center@.len(), |i: int| iso_step(step)), k),
    {
        let n = center.0.len();
        let s: i64 = if step < 1 { 1 } else { step };
        let ghost steps = Seq::new(center@.len(), |i: int| iso_step(step));
        let mut out: Vec<XMesh> = Vec::with_capacity(n * 2);
        let mut i: usize = 0;
        while i < n
            invariant
                n == center@.len(),
                2 * n <= usize::MAX,
                i <= n,
                s as int == iso_step(step),
                steps == Seq::new(center@.len(), |i: int| iso_step(step)),
                out@.len() == 2 * i,
                forall|k: int| 0 <= k < out@.len() ==> #[trigger] out@[k]@ == poll_set(center@, steps, k),
            decreases n - i,
        {
            let mut xp = center.0.clone();
            let vp = saturating_add_i64(xp[i], s);
            xp.set(i, vp);
            out.push(XMesh(xp));

            let mut xm = center.0.clone();
            let vm = saturating_sub_i64(xm[i], s);
            xm.set(i, vm);
            out.push(XMesh(xm));

            proof {
                assert(out@[2 * i as int]@ == poll_set(center@, steps, 2 * i as int));
                assert(out@[2 * i + 1]@ == poll_set(center@, steps, 2 * i + 1));
            }
            i = i + 1;
        }
        out
    }

    /// Generate axis-aligned poll points with per-dimension steps.
    ///
    /// A missing or non-positive step for an axis is replaced by 1.
    pub fn generate_points_aniso(center: &XMesh, steps: &[i64]) -> (out: Vec<XMesh>)
        requires
            2 * center@.len() <= usize::MAX,
        ensures
            out@.len() == 2 * center@.len(),
            forall|k: int| 0 <= k < out@.len() ==>
                #[trigger] out@[k]@ == poll_set(center@, Seq::new(center@.len(), |i: int| aniso_step(steps@, i)), k),
    {
        let n = center.0.len();
        let ghost st = Seq::new(center@.len(), |i: int| aniso_step(steps@, i));
        let mut out: Vec<XMesh> = Vec::with_capacity(n * 2);
        let mut i: usize = 0;
        while i < n
            invariant
                n == center@.len(),
                2 * n <= usize::MAX,
                i <= n,
                st == Seq::new(center@.len(), |i: int| aniso_step(steps@, i)),
                out@.len() == 2 * i,
                forall|k: int| 0 <= k < out@.len() ==> #[trigger] out@[k]@ == poll_set(center@, st, k),
            decreases n - i,
        {
            let s: i64 = if i < steps.len() && steps[i] >= 1 { steps[i] } else { 1 };
            let mut xp = center.0.clone();
            let vp = saturating_add_i64(xp[i], s);
            xp.set(i, vp);
            out.push(XMesh(xp));

            let mut xm = center.0.clone();
            let vm = saturating_sub_i64(xm[i], s);
            xm.set(i, vm);
            out.push(XMesh(xm));

            proof {
                assert(out@[2 * i as int]@ == poll_set(center@, st, 2 * i as int));
                assert(out@[2 * i + 1]@ == poll_set(center@, st, 2 * i + 1));
            }
            i = i + 1;
        }
        out
    }
}

/// Each poll point moves exactly one coordinate of the center, axis `k / 2`: by
/// `+steps[k / 2]` for even `k` and by `-steps[k / 2]` for odd `k`, exactly unless
/// the move leaves the `i64` range (where it saturates).
pub proof fn lemma_poll_point_moves_one_axis(center: Seq<i64>, steps: Seq<int>, k: int)
    requires
        0 <= k < 2 * center.len(),
        steps.len() == center.len(),
    ensures
        poll_set(center, steps, k).len() == center.len(),
        forall|i: int| 0 <= i < center.len() && i != k / 2 ==> #[trigger] poll_set(center, steps, k)[i] == center[i],
        ({
            let d = if k % 2 == 0 { steps[k / 2] } else { -steps[k / 2] };
            i64::MIN <= center[k / 2] + d <= i64::MAX ==> poll_set(center, steps, k)[k / 2] == center[k / 2] + d
        }),
{
}

/// With the same step `s` on every axis (at least as many entries as the center
/// has coordinates), the anisotropic per-axis steps are the isotropic ones for `s`, so both
/// generators produce the same poll set.
pub proof fn lemma_aniso_uniform_is_iso(center: Seq<i64>, steps: Seq<i64>, s: i64)
    requires
        steps.len() >= center.len(),
        forall|i: int| 0 <= i < center.len() ==> #[trigger] steps[i] == s,
    ensures
        Seq::new(center.len(), |i: int| aniso_step(steps, i)) == Seq::new(center.len(), |i: int| iso_step(s)),
{
    assert(Seq::new(center.len(), |i: int| aniso_step(steps, i)) =~= Seq::new(center.len(), |i: int| iso_step(s)));
}

/// Steps given beyond the center's dimension are ignored: once `steps` covers every
/// axis, appending more entries leaves the per-axis steps, and so the poll set,
/// unchanged.
pub proof fn lemma_aniso_ignores_extra_steps(center: Seq<i64>, steps: Seq<i64>, extra: Seq<i64>)
    requires
        steps.len() >= center.len(),
    ensures
        Seq::new(center.len(), |i: int| aniso_step(steps + extra, i)) == Seq::new(center.len(), |i: int| aniso_step(steps, i)),
{
    assert(Seq::new(center.len(), |i: int| aniso_step(steps + extra, i)) =~= Seq::new(center.len(), |i: int| aniso_step(steps, i)));
}

} // verus!
