//! The force computer: direct pairwise summation of softened gravitational
//! accelerations, with an exact integer specification of every step.
//!
//! Positions are flat, row-major sequences: particle `i`'s coordinate on
//! axis `ax` sits at index `3 * i + ax`.  For every ordered pair `(i, j)`
//! the kernel forms the displacement `position[j] - position[i]`, the
//! softened squared distance, and its inverse cube, and sums
//! `g * (delta * inv_r3) * mass[j]` over all sources `j` — the diagonal
//! pair included, whose zero displacement contributes exactly zero.

use crate::fixed::{
    fdiv, fmul, lemma_fmul_bounds, lemma_fmul_square, lemma_sqrt_bounds, lemma_tdiv_bounds,
    lemma_tdiv_ordered, sqrt_floor, tdiv,
};
use crate::universe::Universe;
use crate::SimError;
use vstd::prelude::*;

verus! {

/// Every element of `s` has magnitude at most `m`.
pub open spec fn all_within(s: Seq<i64>, m: int) -> bool {
    forall|k: int| 0 <= k < s.len() ==> -m <= #[trigger] s[k] as int <= m
}

/// Every element of `s` is strictly positive and at most `m`.
pub open spec fn all_positive_within(s: Seq<i64>, m: int) -> bool {
    forall|k: int| 0 <= k < s.len() ==> 0 < #[trigger] s[k] as int <= m
}

/// The inputs the force kernel is defined on: a row-major position array
/// matching the mass array, and every quantity in fixed-point range.
pub open spec fn kernel_inputs_ok(p: Seq<i64>, m: Seq<i64>, g: int, soft: int) -> bool {
    &&& p.len() == 3 * m.len()
    &&& 1 <= m.len() <= crate::N_MAX as int
    &&& all_within(p, crate::MAX_ABS as int)
    &&& all_positive_within(m, crate::MAX_ABS as int)
    &&& 0 <= g <= crate::MAX_ABS as int
    &&& crate::MIN_SOFTENING as int <= soft <= crate::MAX_ABS as int
}

/// Displacement of particle `j` from particle `i` along axis `ax`.
pub open spec fn delta(p: Seq<i64>, i: int, j: int, ax: int) -> int {
    p[3 * j + ax] - p[3 * i + ax]
}

/// Softened squared distance of the pair `(i, j)`.
pub open spec fn pair_r2(p: Seq<i64>, soft: int, i: int, j: int) -> int {
    fmul(delta(p, i, j, 0), delta(p, i, j, 0)) + fmul(delta(p, i, j, 1), delta(p, i, j, 1))
        + fmul(delta(p, i, j, 2), delta(p, i, j, 2)) + soft
}

/// Inverse cube of the softened distance: the fixed-point value of
/// `r2^(-3/2)`, formed as `1 / (r2 * sqrt(r2))`.
pub open spec fn inv_r3_of(r2: int) -> int {
    let root = sqrt_floor(r2 * (crate::SCALE as int));
    let r3 = fmul(r2, root);
    fdiv(crate::SCALE as int, r3)
}

/// Acceleration of particle `i` along `ax` contributed by source `j`:
/// `g * (delta * inv_r3) * mass[j]`, in the multiplication order the
/// kernel uses.
pub open spec fn accel_term(p: Seq<i64>, m: Seq<i64>, g: int, soft: int, i: int, j: int, ax: int) -> int {
    fmul(fmul(g, fmul(delta(p, i, j, ax), inv_r3_of(pair_r2(p, soft, i, j)))), m[j] as int)
}

/// Partial sum of the contributions of sources `0 .. k` on particle `i`.
pub open spec fn accel_sum(p: Seq<i64>, m: Seq<i64>, g: int, soft: int, i: int, ax: int, k: int) -> int
    decreases k,
{
    if k <= 0 {
        0
    } else {
        accel_sum(p, m, g, soft, i, ax, k - 1) + accel_term(p, m, g, soft, i, k - 1, ax)
    }
}

/// Net acceleration of particle `i` along axis `ax`: the sum over every
/// source particle.
pub open spec fn accel_at(p: Seq<i64>, m: Seq<i64>, g: int, soft: int, i: int, ax: int) -> int {
    accel_sum(p, m, g, soft, i, ax, m.len() as int)
}

/// Net acceleration at flat row-major index `k`: particle `k / 3`,
/// axis `k % 3`.
pub open spec fn accel_flat(p: Seq<i64>, m: Seq<i64>, g: int, soft: int, k: int) -> int {
    accel_at(p, m, g, soft, k / 3, k % 3)
}

/// The full acceleration array, row-major, as stored values; meaningful
/// where `accel_in_range` holds.
pub open spec fn accel_seq(p: Seq<i64>, m: Seq<i64>, g: int, soft: int) -> Seq<i64> {
    Seq::new(p.len(), |k: int| accel_flat(p, m, g, soft, k) as i64)
}

/// Every component of the net acceleration fits the fixed-point range.
pub open spec fn accel_in_range(p: Seq<i64>, m: Seq<i64>, g: int, soft: int) -> bool {
    forall|i: int, ax: int|
        0 <= i < m.len() && 0 <= ax < 3 ==> -(crate::MAX_ABS as int) <= #[trigger] accel_at(
            p,
            m,
            g,
            soft,
            i,
            ax,
        ) <= crate::MAX_ABS as int
}

/// The three axis contributions of source `j` on target `i`, each exactly
/// the specified term and bounded well inside the machine range.
#[verifier::loop_isolation(false)]
fn pair_terms(
    positions: &Vec<i64>,
    masses: &Vec<i64>,
    gravity: i64,
    softening: i64,
    i: usize,
    j: usize,
) -> (t: (i128, i128, i128))
    requires
        kernel_inputs_ok(positions@, masses@, gravity as int, softening as int),
        i < masses@.len(),
        j < masses@.len(),
    ensures
        t.0 as int == accel_term(
            positions@,
            masses@,
            gravity as int,
            softening as int,
            i as int,
            j as int,
            0,
        ),
        t.1 as int == accel_term(
            positions@,
            masses@,
            gravity as int,
            softening as int,
            i as int,
            j as int,
            1,
        ),
        t.2 as int == accel_term(
            positions@,
            masses@,
            gravity as int,
            softening as int,
            i as int,
            j as int,
            2,
        ),
        -0x80000000000000000000000 <= t.0 as int <= 0x80000000000000000000000,
        -0x80000000000000000000000 <= t.1 as int <= 0x80000000000000000000000,
        -0x80000000000000000000000 <= t.2 as int <= 0x80000000000000000000000,
{
    let ghost p = positions@;
    let ghost soft = softening as int;
    let dx: i128 = positions[3 * j] as i128 - positions[3 * i] as i128;
    let dy: i128 = positions[3 * j + 1] as i128 - positions[3 * i + 1] as i128;
    let dz: i128 = positions[3 * j + 2] as i128 - positions[3 * i + 2] as i128;
    proof {
        assert(dx as int == delta(p, i as int, j as int, 0));
        assert(dy as int == delta(p, i as int, j as int, 1));
        assert(dz as int == delta(p, i as int, j as int, 2));
        lemma_fmul_bounds(dx as int, dx as int, 0x20000000000, 0x20000000000);
        lemma_fmul_bounds(dy as int, dy as int, 0x20000000000, 0x20000000000);
        lemma_fmul_bounds(dz as int, dz as int, 0x20000000000, 0x20000000000);
        lemma_fmul_square(dx as int);
        lemma_fmul_square(dy as int);
        lemma_fmul_square(dz as int);
    }
    let dx2: i128 = crate::fixed::fmul_i128(dx, dx);
    let dy2: i128 = crate::fixed::fmul_i128(dy, dy);
    let dz2: i128 = crate::fixed::fmul_i128(dz, dz);
    let r2: i128 = dx2 + dy2 + dz2 + softening as i128;
    proof {
        assert(r2 as int == pair_r2(p, soft, i as int, j as int));
        assert(crate::MIN_SOFTENING as int <= r2 as int);
        assert((r2 as int) < 0x40000000000000);
        assert(crate::SCALE as int == 0x40000000);
        assert((r2 as int) * 0x40000000 < 0x1000000000000000000000) by (nonlinear_arith)
            requires
                (r2 as int) < 0x40000000000000,
        ;
        assert((r2 as int) * 0x40000000 >= 0x10000000000) by (nonlinear_arith)
            requires
                r2 as int >= 0x400,
        ;
    }
    let r2s: i128 = r2 * (crate::SCALE as i128);
    let root: u128 = crate::fixed::isqrt_u128(r2s as u128);
    proof {
        assert((0x100000int) * 0x100000 <= r2s as int) by (nonlinear_arith)
            requires
                r2s as int >= 0x10000000000,
        ;
        assert((0x3ffffffffffint + 1) * (0x3ffffffffff + 1) > r2s as int) by (nonlinear_arith)
            requires
                (r2s as int) < 0x1000000000000000000000,
        ;
        lemma_sqrt_bounds(r2s as int, 0x100000, 0x3ffffffffff);
        assert(r2 as int * root as int >= 0x40000000) by (nonlinear_arith)
            requires
                r2 as int >= 0x400,
                root as int >= 0x100000,
        ;
        assert(r2 as int * root as int <= 0x1000000000000000000000000) by (nonlinear_arith)
            requires
                0 <= r2 as int && (r2 as int) < 0x40000000000000,
                0 <= root as int <= 0x40000000000,
        ;
        lemma_tdiv_ordered(0x40000000, r2 as int * root as int, crate::SCALE as int);
    }
    let r3: i128 = crate::fixed::fmul_i128(r2, root as i128);
    proof {
        lemma_tdiv_bounds(
            (crate::SCALE as int) * (crate::SCALE as int),
            r3 as int,
            0x1000000000000000,
        );
    }
    let inv_r3: i128 = crate::fixed::fdiv_i128(crate::SCALE as i128, r3);
    proof {
        assert(inv_r3 as int == inv_r3_of(pair_r2(p, soft, i as int, j as int)));
        assert(0 <= inv_r3 as int <= 0x1000000000000000);
        lemma_fmul_bounds(dx as int, inv_r3 as int, 0x20000000000, 0x1000000000000000);
        lemma_fmul_bounds(dy as int, inv_r3 as int, 0x20000000000, 0x1000000000000000);
        lemma_fmul_bounds(dz as int, inv_r3 as int, 0x20000000000, 0x1000000000000000);
    }
    let ux: i128 = crate::fixed::fmul_i128(dx, inv_r3);
    let uy: i128 = crate::fixed::fmul_i128(dy, inv_r3);
    let uz: i128 = crate::fixed::fmul_i128(dz, inv_r3);
    proof {
        lemma_fmul_bounds(gravity as int, ux as int, 0x10000000000, 0x800000000000000000);
        lemma_fmul_bounds(gravity as int, uy as int, 0x10000000000, 0x800000000000000000);
        lemma_fmul_bounds(gravity as int, uz as int, 0x10000000000, 0x800000000000000000);
    }
    let gx: i128 = crate::fixed::fmul_i128(gravity as i128, ux);
    let gy: i128 = crate::fixed::fmul_i128(gravity as i128, uy);
    let gz: i128 = crate::fixed::fmul_i128(gravity as i128, uz);
    let mj: i128 = masses[j] as i128;
    proof {
        lemma_fmul_bounds(gx as int, mj as int, 0x200000000000000000000, 0x10000000000);
        lemma_fmul_bounds(gy as int, mj as int, 0x200000000000000000000, 0x10000000000);
        lemma_fmul_bounds(gz as int, mj as int, 0x200000000000000000000, 0x10000000000);
    }
    let tx: i128 = crate::fixed::fmul_i128(gx, mj);
    let ty: i128 = crate::fixed::fmul_i128(gy, mj);
    let tz: i128 = crate::fixed::fmul_i128(gz, mj);
    (tx, ty, tz)
}

impl Universe {
    /// The force computer: for positions and masses in range, returns the
    /// full acceleration array, or reports that some component left the
    /// fixed-point range — and exactly then.
    #[verifier::loop_isolation(false)]
    pub fn get_acceleration(
        positions: &Vec<i64>,
        masses: &Vec<i64>,
        gravity: i64,
        softening: i64,
    ) -> (r: Result<Vec<i64>, SimError>)
        requires
            kernel_inputs_ok(positions@, masses@, gravity as int, softening as int),
        ensures
            r is Ok <==> accel_in_range(positions@, masses@, gravity as int, softening as int),
            r matches Ok(a) ==> a@.len() == positions@.len() && forall|i: int, ax: int|
                0 <= i < masses@.len() && 0 <= ax < 3 ==> #[trigger] a@[3 * i + ax] as int
                    == accel_at(positions@, masses@, gravity as int, softening as int, i, ax),
            r matches Err(e) ==> e == SimError::OutOfRange,
    {
        let ghost p = positions@;
        let ghost m = masses@;
        let ghost g = gravity as int;
        let ghost soft = softening as int;
        let n: usize = masses.len();
        let mut out: Vec<i64> = Vec::new();
        let mut i: usize = 0;
        while i < n
            invariant
                i <= n,
                out@.len() == 3 * i,
                forall|i2: int, ax: int|
                    0 <= i2 < i && 0 <= ax < 3 ==> #[trigger] out@[3 * i2 + ax] as int
                        == accel_at(p, m, g, soft, i2, ax),
                forall|i2: int, ax: int|
                    0 <= i2 < i && 0 <= ax < 3 ==> -(crate::MAX_ABS as int) <= #[trigger] accel_at(
                        p,
                        m,
                        g,
                        soft,
                        i2,
                        ax,
                    ) <= crate::MAX_ABS as int,
            decreases n - i,
        {
            let mut sx: i128 = 0;
            let mut sy: i128 = 0;
            let mut sz: i128 = 0;
            let mut j: usize = 0;
            while j < n
                invariant
                    j <= n,
                    i < n,
                    sx as int == accel_sum(p, m, g, soft, i as int, 0, j as int),
                    sy as int == accel_sum(p, m, g, soft, i as int, 1, j as int),
                    sz as int == accel_sum(p, m, g, soft, i as int, 2, j as int),
                    -0x80000000000000000000000 * (j as int) <= sx as int
                        <= 0x80000000000000000000000 * (j as int),
                    -0x80000000000000000000000 * (j as int) <= sy as int
                        <= 0x80000000000000000000000 * (j as int),
                    -0x80000000000000000000000 * (j as int) <= sz as int
                        <= 0x80000000000000000000000 * (j as int),
                decreases n - j,
            {
                let t = pair_terms(positions, masses, gravity, softening, i, j);
                sx = sx + t.0;
                sy = sy + t.1;
                sz = sz + t.2;
                j = j + 1;
            }
            proof {
                assert(sx as int == accel_at(p, m, g, soft, i as int, 0));
                assert(sy as int == accel_at(p, m, g, soft, i as int, 1));
                assert(sz as int == accel_at(p, m, g, soft, i as int, 2));
            }
            if sx < -(crate::MAX_ABS as i128) || sx > crate::MAX_ABS as i128 || sy < -(
            crate::MAX_ABS as i128) || sy > crate::MAX_ABS as i128 || sz < -(
            crate::MAX_ABS as i128) || sz > crate::MAX_ABS as i128 {
                proof {
                    assert(!accel_in_range(p, m, g, soft));
                }
                return Err(SimError::OutOfRange);
            }
            out.push(sx as i64);
            out.push(sy as i64);
            out.push(sz as i64);
            i = i + 1;
        }
        Ok(out)
    }
}

} // verus!
