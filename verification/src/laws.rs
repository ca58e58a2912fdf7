//! The general laws of the force computer and the integrator, stated and
//! proved once over the exact specifications the contracts use.

use crate::fixed::{
    fmul, lemma_fmul_neg_left, lemma_fmul_neg_right, lemma_fmul_square, lemma_fmul_zero_left,
    lemma_fmul_zero_right,
};
use crate::kernel::{accel_at, accel_term, delta, inv_r3_of, pair_r2};
use crate::universe::{
    step_acc, step_ok, step_pos, step_v1, step_vel, vel_half, PositionsView, Universe,
};
use vstd::arithmetic::div_mod::lemma_fundamental_div_mod;
use vstd::prelude::*;

verus! {

/// Self-force is zero: the diagonal pair `(i, i)` has zero displacement,
/// so its contribution to the acceleration is exactly zero on every
/// axis, whatever the softening value.
pub proof fn lemma_self_term_zero(p: Seq<i64>, m: Seq<i64>, g: int, soft: int, i: int, ax: int)
    ensures
        accel_term(p, m, g, soft, i, i, ax) == 0,
{
    assert(delta(p, i, i, ax) == 0);
    lemma_fmul_zero_left(inv_r3_of(pair_r2(p, soft, i, i)));
    lemma_fmul_zero_right(g);
    lemma_fmul_zero_left(m[i] as int);
}

/// Newton's third law, in its exact fixed-point form: the softened
/// squared distance and the inverse-cube factor are symmetric in the
/// pair, the directed kernel core `g * (delta * inv_r3)` is exactly
/// antisymmetric, and the ideal mass-weighted forces
/// `m_i * (g * delta_ij * inv_r3) * m_j` of the two orderings are exact
/// negatives of each other.  The stored per-axis contributions weight the
/// common core by the source mass: the contribution of `i` on `j` is the
/// negated core weighted by `m_i`, so for equal masses the two stored
/// contributions are exact negatives, and for unequal masses they differ
/// from the ideal forces only by the one rounding of that last weighting.
pub proof fn lemma_newton_third_law(
    p: Seq<i64>,
    m: Seq<i64>,
    g: int,
    soft: int,
    i: int,
    j: int,
    ax: int,
)
    ensures
        pair_r2(p, soft, j, i) == pair_r2(p, soft, i, j),
        inv_r3_of(pair_r2(p, soft, j, i)) == inv_r3_of(pair_r2(p, soft, i, j)),
        fmul(g, fmul(delta(p, j, i, ax), inv_r3_of(pair_r2(p, soft, j, i)))) == -fmul(
            g,
            fmul(delta(p, i, j, ax), inv_r3_of(pair_r2(p, soft, i, j))),
        ),
        (m[i] as int) * (g * (delta(p, i, j, ax) * inv_r3_of(pair_r2(p, soft, i, j)))) * (
        m[j] as int) == -((m[j] as int) * (g * (delta(p, j, i, ax) * inv_r3_of(
            pair_r2(p, soft, j, i),
        ))) * (m[i] as int)),
        accel_term(p, m, g, soft, j, i, ax) == -fmul(
            fmul(g, fmul(delta(p, i, j, ax), inv_r3_of(pair_r2(p, soft, i, j)))),
            m[i] as int,
        ),
        m[i] == m[j] ==> accel_term(p, m, g, soft, j, i, ax) == -accel_term(
            p,
            m,
            g,
            soft,
            i,
            j,
            ax,
        ),
{
    lemma_fmul_square(delta(p, i, j, 0));
    lemma_fmul_square(delta(p, i, j, 1));
    lemma_fmul_square(delta(p, i, j, 2));
    assert(delta(p, j, i, 0) == -delta(p, i, j, 0));
    assert(delta(p, j, i, 1) == -delta(p, i, j, 1));
    assert(delta(p, j, i, 2) == -delta(p, i, j, 2));
    assert(pair_r2(p, soft, j, i) == pair_r2(p, soft, i, j));
    let inv = inv_r3_of(pair_r2(p, soft, i, j));
    lemma_fmul_neg_left(delta(p, i, j, ax), inv);
    lemma_fmul_neg_right(g, fmul(delta(p, i, j, ax), inv));
    lemma_fmul_neg_left(fmul(g, fmul(delta(p, i, j, ax), inv)), m[i] as int);
    lemma_fmul_neg_left(fmul(g, fmul(delta(p, i, j, ax), inv)), m[j] as int);
    assert((m[i] as int) * (g * (delta(p, i, j, ax) * inv)) * (m[j] as int) == -((m[j] as int) * (
    g * ((-delta(p, i, j, ax)) * inv)) * (m[i] as int))) by (nonlinear_arith);
}

/// Determinism of the force computer: the acceleration array is a
/// function of positions, masses and constants — any two arrays that
/// both satisfy the force computer's contract on the same inputs are
/// equal.
pub proof fn lemma_accel_deterministic(
    p: Seq<i64>,
    m: Seq<i64>,
    g: int,
    soft: int,
    a1: Seq<i64>,
    a2: Seq<i64>,
)
    requires
        p.len() == 3 * m.len(),
        a1.len() == p.len(),
        a2.len() == p.len(),
        forall|i: int, ax: int|
            0 <= i < m.len() && 0 <= ax < 3 ==> #[trigger] a1[3 * i + ax] as int == accel_at(
                p,
                m,
                g,
                soft,
                i,
                ax,
            ),
        forall|i: int, ax: int|
            0 <= i < m.len() && 0 <= ax < 3 ==> #[trigger] a2[3 * i + ax] as int == accel_at(
                p,
                m,
                g,
                soft,
                i,
                ax,
            ),
    ensures
        a1 == a2,
{
    assert forall|k: int| 0 <= k < a1.len() implies a1[k] == a2[k] by {
        lemma_fundamental_div_mod(k, 3);
        let i = k / 3;
        let ax = k % 3;
        assert(a1[3 * i + ax] as int == accel_at(p, m, g, soft, i, ax));
        assert(a2[3 * i + ax] as int == accel_at(p, m, g, soft, i, ax));
    }
    assert(a1 =~= a2);
}

/// Determinism of the integrator: the successor state is a function of
/// the state — two systems with equal arrays and constants have equal
/// step phases, and one steps within range exactly when the other does.
pub proof fn lemma_step_deterministic(a: Universe, b: Universe)
    requires
        a.pos() == b.pos(),
        a.vel() == b.vel(),
        a.acc() == b.acc(),
        a.mass() == b.mass(),
        a.par() == b.par(),
    ensures
        step_v1(a) == step_v1(b),
        step_pos(a) == step_pos(b),
        step_acc(a) == step_acc(b),
        step_vel(a) == step_vel(b),
        step_ok(a) == step_ok(b),
{
}

/// A single particle feels no force: with one particle every
/// acceleration component is exactly zero — at the current positions
/// and at the drifted ones — so a step leaves the velocity unchanged
/// and advances each position component by exactly `v * dt`.
pub proof fn lemma_single_particle(u: Universe)
    requires
        u.wf(),
        u.par().n == 1,
    ensures
        forall|ax: int|
            0 <= ax < 3 ==> accel_at(
                u.pos(),
                u.mass(),
                u.par().gravity as int,
                u.par().softening as int,
                0,
                ax,
            ) == 0,
        step_v1(u) == u.vel(),
        step_vel(u) == u.vel(),
        step_ok(u) ==> forall|k: int|
            0 <= k < 3 ==> #[trigger] step_pos(u)[k] as int == u.pos()[k] + fmul(
                u.vel()[k] as int,
                u.par().dt as int,
            ),
{
    let g = u.par().gravity as int;
    let soft = u.par().softening as int;
    let dt = u.par().dt as int;
    assert forall|ax: int| 0 <= ax < 3 implies accel_at(u.pos(), u.mass(), g, soft, 0, ax)
        == 0 by {
        lemma_self_term_zero(u.pos(), u.mass(), g, soft, 0, ax);
        assert(crate::kernel::accel_sum(u.pos(), u.mass(), g, soft, 0, ax, 0) == 0);
        assert(crate::kernel::accel_sum(u.pos(), u.mass(), g, soft, 0, ax, 1) == accel_term(
            u.pos(),
            u.mass(),
            g,
            soft,
            0,
            0,
            ax,
        ));
    }
    assert forall|k: int| 0 <= k < 3 implies u.acc()[k] as int == 0 by {
        lemma_fundamental_div_mod(k, 3);
        let ax = k % 3;
        assert(u.acc()[3 * 0 + ax] as int == accel_at(u.pos(), u.mass(), g, soft, 0, ax));
        lemma_self_term_zero(u.pos(), u.mass(), g, soft, 0, ax);
    }
    assert forall|k: int| 0 <= k < 3 implies #[trigger] step_v1(u)[k] == u.vel()[k] by {
        lemma_fmul_zero_left(crate::fixed::tdiv(dt, 2));
        assert(vel_half(u.vel(), u.acc(), dt, k) == u.vel()[k] as int);
    }
    assert(step_v1(u) =~= u.vel());
    assert forall|ax: int| 0 <= ax < 3 implies accel_at(step_pos(u), u.mass(), g, soft, 0, ax)
        == 0 by {
        lemma_self_term_zero(step_pos(u), u.mass(), g, soft, 0, ax);
        assert(crate::kernel::accel_sum(step_pos(u), u.mass(), g, soft, 0, ax, 0) == 0);
        assert(crate::kernel::accel_sum(step_pos(u), u.mass(), g, soft, 0, ax, 1) == accel_term(
            step_pos(u),
            u.mass(),
            g,
            soft,
            0,
            0,
            ax,
        ));
    }
    assert forall|k: int| 0 <= k < 3 implies #[trigger] step_acc(u)[k] as int == 0 by {
        lemma_fundamental_div_mod(k, 3);
        let ax = k % 3;
        lemma_self_term_zero(step_pos(u), u.mass(), g, soft, 0, ax);
        assert(accel_at(step_pos(u), u.mass(), g, soft, 0, ax) == 0);
    }
    assert forall|k: int| 0 <= k < 3 implies #[trigger] step_vel(u)[k] == u.vel()[k] by {
        lemma_fmul_zero_left(crate::fixed::tdiv(dt, 2));
        assert(vel_half(step_v1(u), step_acc(u), dt, k) == step_v1(u)[k] as int);
    }
    assert(step_vel(u) =~= u.vel());
}

/// Buffer invalidation: a position view taken before a completed step
/// carries the old generation stamp, so after the step — which advances
/// the generation — it no longer matches, and `is_current` reports
/// false; a view re-fetched after the step carries the new positions.
pub proof fn lemma_view_invalidated(v: PositionsView, before: Universe, after: Universe)
    requires
        v.generation as int == before.gen(),
        after.gen() == before.gen() + 1,
    ensures
        v.generation as int != after.gen(),
{
}

} // verus!

