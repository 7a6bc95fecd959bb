//! Validation of the integer parameters of an engine configuration.
//!
//! Each failed rule sets one bit of the error mask; the bit values are those of the
//! configuration error flags. Rules on floating-point parameters are checked by the
//! caller and combined with this mask.

use vstd::prelude::*;

verus! {

pub const CALIBRATOR_TARGET_FALSE: u32 = 0x1;
pub const CALIBRATOR_MIN_AUDITS: u32 = 0x2;
pub const CALIBRATOR_ETA_DELTA: u32 = 0x4;
pub const CALIBRATOR_DELTA_RANGE: u32 = 0x8;
pub const CALIBRATOR_K_WINDOW: u32 = 0x10;
pub const CALIBRATOR_K_MIN_PAIRS: u32 = 0x20;
pub const CALIBRATOR_K_QUANTILE: u32 = 0x40;
pub const CALIBRATOR_K_ETA: u32 = 0x80;
pub const ACCEPT_H0: u32 = 0x100;
pub const ACCEPT_H_MIN: u32 = 0x200;
pub const ACCEPT_H_SHRINK: u32 = 0x400;
pub const ACCEPT_EPS_F: u32 = 0x800;
pub const ACCEPT_EPS_V: u32 = 0x1000;
pub const MESH_BASE_STEP: u32 = 0x2000;
pub const MESH_MUL_INIT: u32 = 0x4000;
pub const MESH_MUL_MIN: u32 = 0x8000;
pub const MESH_REFINE_DIV: u32 = 0x10000;
pub const POLL_STEP_MULT: u32 = 0x20000;
pub const EXECUTOR_CHUNK_BASE_RANGE: u32 = 0x40000;
pub const SEARCH_DIM: u32 = 0x80000;
pub const OBJECTIVE_PRUNE_MIN_SMC_RANK: u32 = 0x100000;
pub const OBJECTIVE_PRUNE_MIN_LEVEL: u32 = 0x200000;

/// The integer parameters of an engine configuration.
#[derive(Clone, Copy, Debug, PartialEq, Eq, Structural)]
pub struct IntegerConfig {
    pub mesh_mul_init: i64,
    pub mesh_mul_min: i64,
    pub mesh_refine_div: i64,
    pub poll_step_mult: i64,
    pub search_dim: Option<usize>,
    pub calibrator_min_audits: usize,
    pub calibrator_k_window: usize,
    pub calibrator_k_min_pairs: usize,
    pub objective_prune_min_smc_rank: usize,
    pub objective_prune_min_level: usize,
    pub executor_chunk_base: usize,
    pub executor_chunk_min: usize,
    pub executor_chunk_max: usize,
}

/// The error bit of one rule: `bit` when the rule is broken, 0 otherwise.
pub open spec fn flag(broken: bool, bit: u32) -> u32 {
    if broken { bit } else { 0 }
}

/// Which rules on the integer parameters a configuration breaks, one bit per rule.
pub open spec fn integer_errors(c: IntegerConfig) -> u32 {
    let k_window = if c.calibrator_k_window < 1 { 1 } else { c.calibrator_k_window };
    let min_floor = if c.mesh_mul_min < 1 { 1 } else { c.mesh_mul_min };
    flag(c.calibrator_min_audits < 1, CALIBRATOR_MIN_AUDITS)
        | flag(c.calibrator_k_window < 1, CALIBRATOR_K_WINDOW)
        | flag(!(c.calibrator_k_min_pairs >= 1 && c.calibrator_k_min_pairs <= k_window), CALIBRATOR_K_MIN_PAIRS)
        | flag(c.objective_prune_min_smc_rank < 1, OBJECTIVE_PRUNE_MIN_SMC_RANK)
        | flag(c.objective_prune_min_level < 1, OBJECTIVE_PRUNE_MIN_LEVEL)
        | flag(c.mesh_mul_min < 1, MESH_MUL_MIN)
        | flag(c.mesh_mul_init < min_floor, MESH_MUL_INIT)
        | flag(c.mesh_refine_div < 2, MESH_REFINE_DIV)
        | flag(c.poll_step_mult < 1, POLL_STEP_MULT)
        | flag(c.search_dim == Some(0usize), SEARCH_DIM)
        | flag(!(c.executor_chunk_min <= c.executor_chunk_base && c.executor_chunk_base <= c.executor_chunk_max), EXECUTOR_CHUNK_BASE_RANGE)
}

impl IntegerConfig {
    /// The error mask of the integer rules (0 when all hold).
    pub fn errors(&self) -> (r: u32)
        ensures
            r == integer_errors(*self),
    {
        let k_window: usize = if self.calibrator_k_window < 1 { 1 } else { self.calibrator_k_window };
        let min_floor: i64 = if self.mesh_mul_min < 1 { 1 } else { self.mesh_mul_min };
        let dim_zero = match self.search_dim {
            Some(d) => d == 0,
            None => false,
        };
        let a: u32 = if self.calibrator_min_audits < 1 { CALIBRATOR_MIN_AUDITS } else { 0 };
        let b: u32 = if self.calibrator_k_window < 1 { CALIBRATOR_K_WINDOW } else { 0 };
        let c: u32 = if !(self.calibrator_k_min_pairs >= 1 && self.calibrator_k_min_pairs <= k_window) { CALIBRATOR_K_MIN_PAIRS } else { 0 };
        let d: u32 = if self.objective_prune_min_smc_rank < 1 { OBJECTIVE_PRUNE_MIN_SMC_RANK } else { 0 };
        let e: u32 = if self.objective_prune_min_level < 1 { OBJECTIVE_PRUNE_MIN_LEVEL } else { 0 };
        let f: u32 = if self.mesh_mul_min < 1 { MESH_MUL_MIN } else { 0 };
        let g: u32 = if self.mesh_mul_init < min_floor { MESH_MUL_INIT } else { 0 };
        let h: u32 = if self.mesh_refine_div < 2 { MESH_REFINE_DIV } else { 0 };
        let i: u32 = if self.poll_step_mult < 1 { POLL_STEP_MULT } else { 0 };
        let j: u32 = if dim_zero { SEARCH_DIM } else { 0 };
        let k: u32 = if !(self.executor_chunk_min <= self.executor_chunk_base && self.executor_chunk_base <= self.executor_chunk_max) { EXECUTOR_CHUNK_BASE_RANGE } else { 0 };
        a | b | c | d | e | f | g | h | i | j | k
    }
}

/// A configuration's integer parameters pass exactly when every rule holds; a bit of
/// the mask is set exactly when its rule is broken.
pub proof fn lemma_integer_errors_exact(c: IntegerConfig)
    ensures
        (integer_errors(c) & CALIBRATOR_MIN_AUDITS != 0) <==> c.calibrator_min_audits < 1,
        (integer_errors(c) & CALIBRATOR_K_WINDOW != 0) <==> c.calibrator_k_window < 1,
        (integer_errors(c) & OBJECTIVE_PRUNE_MIN_SMC_RANK != 0) <==> c.objective_prune_min_smc_rank < 1,
        (integer_errors(c) & OBJECTIVE_PRUNE_MIN_LEVEL != 0) <==> c.objective_prune_min_level < 1,
        (integer_errors(c) & MESH_REFINE_DIV != 0) <==> c.mesh_refine_div < 2,
        (integer_errors(c) & CALIBRATOR_K_MIN_PAIRS != 0) <==> !(1 <= c.calibrator_k_min_pairs <= (if c.calibrator_k_window < 1 { 1 } else { c.calibrator_k_window })),
        (integer_errors(c) & MESH_MUL_MIN != 0) <==> c.mesh_mul_min < 1,
        (integer_errors(c) & MESH_MUL_INIT != 0) <==> c.mesh_mul_init < (if c.mesh_mul_min < 1 { 1 } else { c.mesh_mul_min }),
        (integer_errors(c) & POLL_STEP_MULT != 0) <==> c.poll_step_mult < 1,
        (integer_errors(c) & SEARCH_DIM != 0) <==> c.search_dim == Some(0usize),
        (integer_errors(c) & EXECUTOR_CHUNK_BASE_RANGE != 0) <==> !(c.executor_chunk_min <= c.executor_chunk_base <= c.executor_chunk_max),
        integer_errors(c) == 0 <==> {
            &&& c.calibrator_min_audits >= 1
            &&& c.calibrator_k_window >= 1
            &&& 1 <= c.calibrator_k_min_pairs <= c.calibrator_k_window
            &&& c.objective_prune_min_smc_rank >= 1
            &&& c.objective_prune_min_level >= 1
            &&& c.mesh_mul_min >= 1
            &&& c.mesh_mul_init >= c.mesh_mul_min
            &&& c.mesh_refine_div >= 2
            &&& c.poll_step_mult >= 1
            &&& c.search_dim != Some(0usize)
            &&& c.executor_chunk_min <= c.executor_chunk_base <= c.executor_chunk_max
        },
{
    let a = flag(c.calibrator_min_audits < 1, CALIBRATOR_MIN_AUDITS);
    let b = flag(c.calibrator_k_window < 1, CALIBRATOR_K_WINDOW);
    let k_window = if c.calibrator_k_window < 1 { 1 } else { c.calibrator_k_window };
    let min_floor = if c.mesh_mul_min < 1 { 1 } else { c.mesh_mul_min };
    let cc = flag(!(c.calibrator_k_min_pairs >= 1 && c.calibrator_k_min_pairs <= k_window), CALIBRATOR_K_MIN_PAIRS);
    let d = flag(c.objective_prune_min_smc_rank < 1, OBJECTIVE_PRUNE_MIN_SMC_RANK);
    let e = flag(c.objective_prune_min_level < 1, OBJECTIVE_PRUNE_MIN_LEVEL);
    let f = flag(c.mesh_mul_min < 1, MESH_MUL_MIN);
    let g = flag(c.mesh_mul_init < min_floor, MESH_MUL_INIT);
    let h = flag(c.mesh_refine_div < 2, MESH_REFINE_DIV);
    let i = flag(c.poll_step_mult < 1, POLL_STEP_MULT);
    let j = flag(c.search_dim == Some(0usize), SEARCH_DIM);
    let k = flag(!(c.executor_chunk_min <= c.executor_chunk_base && c.executor_chunk_base <= c.executor_chunk_max), EXECUTOR_CHUNK_BASE_RANGE);
    assert(a == 0 || a == 2u32);
    assert(b == 0 || b == 16u32);
    assert(cc == 0 || cc == 32u32);
    assert(d == 0 || d == 1048576u32);
    assert(e == 0 || e == 2097152u32);
    assert(f == 0 || f == 32768u32);
    assert(g == 0 || g == 16384u32);
    assert(h == 0 || h == 65536u32);
    assert(i == 0 || i == 131072u32);
    assert(j == 0 || j == 524288u32);
    assert(k == 0 || k == 262144u32);
    let m = a | b | cc | d | e | f | g | h | i | j | k;
    assert(m == integer_errors(c));
    assert(
        (a == 0 || a == 2u32) && (b == 0 || b == 16u32) && (cc == 0 || cc == 32u32) && (d == 0 || d == 1048576u32)
        && (e == 0 || e == 2097152u32) && (f == 0 || f == 32768u32) && (g == 0 || g == 16384u32)
        && (h == 0 || h == 65536u32) && (i == 0 || i == 131072u32) && (j == 0 || j == 524288u32)
        && (k == 0 || k == 262144u32) && m == a | b | cc | d | e | f | g | h | i | j | k
        ==> ((m & 2u32 != 0) <==> a != 0) && ((m & 16u32 != 0) <==> b != 0)
            && ((m & 1048576u32 != 0) <==> d != 0) && ((m & 2097152u32 != 0) <==> e != 0)
            && ((m & 65536u32 != 0) <==> h != 0)
            && ((m & 32u32 != 0) <==> cc != 0) && ((m & 32768u32 != 0) <==> f != 0)
            && ((m & 16384u32 != 0) <==> g != 0) && ((m & 131072u32 != 0) <==> i != 0)
            && ((m & 524288u32 != 0) <==> j != 0) && ((m & 262144u32 != 0) <==> k != 0)
            && (m == 0 <==> (a == 0 && b == 0 && cc == 0 && d == 0 && e == 0 && f == 0 && g == 0 && h == 0 && i == 0 && j == 0 && k == 0))
    ) by (bit_vector);
}

} // verus!
