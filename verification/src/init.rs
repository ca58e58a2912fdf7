//! The initializer: random particle ensembles, the momentum-centering
//! correction, and the construction of a well-formed system.

use crate::fixed::{
    fdiv, fmul, lemma_fmul_bounds, lemma_tdiv_bounds, lemma_tdiv_denominator, lemma_tdiv_multiples,
    lemma_tdiv_ordered, tdiv,
};
use crate::kernel::{
    accel_at, accel_in_range, accel_sum, accel_term, all_within, kernel_inputs_ok,
};
use crate::universe::{params_ok, SimParams, Universe};
use crate::SimError;
use rand::Rng;
use vstd::arithmetic::div_mod::lemma_fundamental_div_mod;
use vstd::prelude::*;

verus! {

/// Lower bound of the sampled masses: 0.1 in fixed point, rounded up.
pub const MASS_LO: i64 = 107374183;

/// Magnitude bound of the sampled velocities: 0.25 in fixed point.
pub const VEL_MAX: i64 = 268435456;

#[verifier::external_type_specification]
#[verifier::external_body]
pub struct ExThreadRng(rand::rngs::ThreadRng);

/// Relies on rand::thread_rng: a lazily seeded random generator for the
/// current thread.
#[verifier::external_body]
fn fresh_rng() -> rand::rngs::ThreadRng {
    rand::thread_rng()
}

/// Relies on rand::Rng::gen_range on an i64 range: a value uniform in
/// `[low, high)`; the call panics on an empty range, so that is excluded.
#[verifier::external_body]
fn sample_range(rng: &mut rand::rngs::ThreadRng, low: i64, high: i64) -> (r: i64)
    requires
        low < high,
    ensures
        low <= r < high,
{
    rng.gen_range(low..high)
}

/// Draw `count` independent values, each uniform in `[low, high)`.
#[verifier::loop_isolation(false)]
fn sample_vec(rng: &mut rand::rngs::ThreadRng, count: usize, low: i64, high: i64) -> (r: Vec<
    i64,
>)
    requires
        low < high,
    ensures
        r@.len() == count,
        forall|k: int| 0 <= k < count ==> low <= #[trigger] r@[k] < high,
{
    let mut out: Vec<i64> = Vec::new();
    let mut k: usize = 0;
    while k < count
        invariant
            k <= count,
            out@.len() == k,
            forall|k2: int| 0 <= k2 < k ==> low <= #[trigger] out@[k2] < high,
        decreases count - k,
    {
        let v = sample_range(rng, low, high);
        out.push(v);
        k = k + 1;
    }
    out
}

/// Sum of the first `k` masses.
pub open spec fn mass_sum(m: Seq<i64>, k: int) -> int
    decreases k,
{
    if k <= 0 {
        0
    } else {
        mass_sum(m, k - 1) + m[k - 1]
    }
}

/// The arithmetic mean of the masses, truncated toward zero.
pub open spec fn mean_mass(m: Seq<i64>) -> int {
    tdiv(mass_sum(m, m.len() as int), m.len() as int)
}

/// The single scalar drift subtracted from all three velocity axes of
/// particle `i`: `(vx + vy + vz) * mass_i / 3 / mean_mass`, each
/// operation in fixed point, in this order.
pub open spec fn drift_correction(vel: Seq<i64>, m: Seq<i64>, i: int) -> int {
    fdiv(tdiv(fmul(vel[3 * i] + vel[3 * i + 1] + vel[3 * i + 2], m[i] as int), 3), mean_mass(m))
}

/// The velocity array `vel` arises from the raw sampled array `raw` —
/// every component within the sampling magnitude — by subtracting each
/// particle's drift correction from all three of its axes.
pub open spec fn centered_from(vel: Seq<i64>, raw: Seq<i64>, m: Seq<i64>) -> bool {
    &&& raw.len() == vel.len()
    &&& all_within(raw, VEL_MAX as int)
    &&& forall|i: int, ax: int|
        0 <= i < m.len() && 0 <= ax < 3 ==> #[trigger] vel[3 * i + ax] as int == raw[3 * i
            + ax] - drift_correction(raw, m, i)
}

/// The momentum-centering correction: subtract from every velocity axis
/// of particle `i` the one scalar `drift_correction` computed from that
/// particle's own velocity components and mass and the ensemble's mean
/// mass.  This axis-agnostic form is deliberate: it is the correction
/// the simulation is defined with, not a per-axis momentum projection.
#[verifier::loop_isolation(false)]
pub fn center_velocities(velocities: &mut Vec<i64>, masses: &Vec<i64>)
    requires
        old(velocities)@.len() == 3 * masses@.len(),
        1 <= masses@.len() <= crate::N_MAX,
        forall|k: int|
            0 <= k < masses@.len() ==> MASS_LO as int <= #[trigger] masses@[k] as int
                && (masses@[k] as int) < crate::SCALE as int,
        all_within(old(velocities)@, VEL_MAX as int),
    ensures
        final(velocities)@.len() == old(velocities)@.len(),
        forall|i: int, ax: int|
            0 <= i < masses@.len() && 0 <= ax < 3 ==> #[trigger] final(velocities)@[3 * i
                + ax] as int == old(velocities)@[3 * i + ax] - drift_correction(
                old(velocities)@,
                masses@,
                i,
            ),
        all_within(final(velocities)@, crate::MAX_ABS as int),
{
    let ghost old_v = velocities@;
    let ghost m = masses@;
    let n: usize = masses.len();
    let mut sum: i128 = 0;
    let mut k: usize = 0;
    while k < n
        invariant
            k <= n,
            sum as int == mass_sum(m, k as int),
            (MASS_LO as int) * (k as int) <= sum as int <= (crate::SCALE as int) * (k as int),
        decreases n - k,
    {
        sum = sum + masses[k] as i128;
        k = k + 1;
    }
    let mean: i128 = crate::fixed::tdiv_i128(sum, n as i128);
    proof {
        lemma_tdiv_ordered((MASS_LO as int) * (n as int), sum as int, n as int);
        lemma_tdiv_multiples(MASS_LO as int, n as int);
        assert((n as int) * (MASS_LO as int) == (MASS_LO as int) * (n as int))
            by (nonlinear_arith);
        assert(mean as int >= MASS_LO as int);
        lemma_tdiv_bounds(sum as int, n as int, (crate::SCALE as int) * (n as int));
        assert(mean as int == mean_mass(m));
    }
    let mut i: usize = 0;
    while i < n
        invariant
            i <= n,
            velocities@.len() == old_v.len(),
            mean as int == mean_mass(m),
            MASS_LO as int <= mean as int,
            forall|i2: int, ax: int|
                0 <= i2 < i && 0 <= ax < 3 ==> #[trigger] velocities@[3 * i2 + ax] as int
                    == old_v[3 * i2 + ax] - drift_correction(old_v, m, i2),
            forall|i2: int, ax: int|
                0 <= i2 < i && 0 <= ax < 3 ==> -(crate::MAX_ABS as int)
                    <= #[trigger] velocities@[3 * i2 + ax] as int <= crate::MAX_ABS as int,
            forall|k2: int|
                3 * i <= k2 < old_v.len() ==> #[trigger] velocities@[k2] == old_v[k2],
        decreases n - i,
    {
        let v0: i64 = velocities[3 * i];
        let v1: i64 = velocities[3 * i + 1];
        let v2: i64 = velocities[3 * i + 2];
        let s3: i128 = v0 as i128 + v1 as i128 + v2 as i128;
        proof {
            lemma_fmul_bounds(s3 as int, m[i as int] as int, 0x30000000, 0x40000000);
        }
        let t: i128 = crate::fixed::fmul_i128(s3, masses[i] as i128);
        proof {
            lemma_tdiv_bounds(t as int, 3, 0x30000000);
        }
        let u: i128 = crate::fixed::tdiv_i128(t, 3);
        proof {
            lemma_tdiv_denominator(
                (u as int) * (crate::SCALE as int),
                mean as int,
                0x400000000000000,
                MASS_LO as int,
            );
        }
        let d: i128 = crate::fixed::fdiv_i128(u, mean);
        proof {
            assert(d as int == drift_correction(old_v, m, i as int));
        }
        let w0: i64 = (v0 as i128 - d) as i64;
        let w1: i64 = (v1 as i128 - d) as i64;
        let w2: i64 = (v2 as i128 - d) as i64;
        velocities.set(3 * i, w0);
        velocities.set(3 * i + 1, w1);
        velocities.set(3 * i + 2, w2);
        i = i + 1;
    }
    proof {
        assert forall|k2: int| 0 <= k2 < old_v.len() implies -(crate::MAX_ABS as int)
            <= #[trigger] velocities@[k2] as int <= crate::MAX_ABS as int by {
            lemma_fundamental_div_mod(k2, 3);
            let i2 = k2 / 3;
            let ax = k2 % 3;
            assert(velocities@[3 * i2 + ax] as int == old_v[3 * i2 + ax] - drift_correction(
                old_v,
                m,
                i2,
            ));
        }
    }
}

impl Universe {
    /// Build a randomly initialized system from the given constants:
    /// masses uniform in [0.1, 1.0), position coordinates uniform in
    /// [-1.0, 1.0), velocity coordinates uniform in [-0.25, 0.25) (all
    /// fixed point), the momentum-centering correction applied, and the
    /// initial accelerations computed by the force kernel.  Fails only
    /// when that first force evaluation leaves the fixed-point range; a
    /// single-particle system feels no force, so there it always
    /// succeeds.
    pub fn new(params: SimParams) -> (r: Result<Universe, SimError>)
        requires
            params_ok(params),
        ensures
            r matches Ok(u) ==> u.wf() && u.par() == params && u.gen() == 0 && (forall|k: int|
                0 <= k < u.mass().len() ==> MASS_LO as int <= #[trigger] u.mass()[k] as int
                    && (u.mass()[k] as int) < crate::SCALE as int) && (forall|k: int|
                0 <= k < u.pos().len() ==> -(crate::SCALE as int) <= #[trigger] u.pos()[k] as int
                    && (u.pos()[k] as int) < crate::SCALE as int) && (exists|raw: Seq<i64>|
                centered_from(u.vel(), raw, u.mass())),
            r matches Err(e) ==> e == SimError::OutOfRange,
            params.n == 1 ==> r is Ok,
    {
        let mut rng = fresh_rng();
        let n: usize = params.n;
        let masses = sample_vec(&mut rng, n, MASS_LO, crate::SCALE);
        let positions = sample_vec(&mut rng, 3 * n, -crate::SCALE, crate::SCALE);
        let mut velocities = sample_vec(&mut rng, 3 * n, -VEL_MAX, VEL_MAX);
        let ghost raw_velocities = velocities@;
        center_velocities(&mut velocities, &masses);
        proof {
            assert(centered_from(velocities@, raw_velocities, masses@));
            assert(kernel_inputs_ok(
                positions@,
                masses@,
                params.gravity as int,
                params.softening as int,
            ));
            if params.n == 1 {
                let g = params.gravity as int;
                let soft = params.softening as int;
                assert forall|i: int, ax: int|
                    0 <= i < masses@.len() && 0 <= ax < 3 implies -(crate::MAX_ABS as int)
                    <= #[trigger] accel_at(positions@, masses@, g, soft, i, ax)
                    <= crate::MAX_ABS as int by {
                    crate::laws::lemma_self_term_zero(positions@, masses@, g, soft, 0, ax);
                    assert(accel_sum(positions@, masses@, g, soft, 0, ax, 0) == 0);
                    assert(accel_sum(positions@, masses@, g, soft, 0, ax, 1) == accel_term(
                        positions@,
                        masses@,
                        g,
                        soft,
                        0,
                        0,
                        ax,
                    ));
                }
                assert(accel_in_range(positions@, masses@, g, soft));
            }
        }
        let accelerations = match Universe::get_acceleration(
            &positions,
            &masses,
            params.gravity,
            params.softening,
        ) {
            Ok(a) => a,
            Err(e) => {
                return Err(e);
            },
        };
        proof {
            assert forall|k: int| 0 <= k < accelerations@.len() implies -(crate::MAX_ABS as int)
                <= #[trigger] accelerations@[k] as int <= crate::MAX_ABS as int by {
                lemma_fundamental_div_mod(k, 3);
                let i = k / 3;
                let ax = k % 3;
                assert(accelerations@[3 * i + ax] as int == accel_at(
                    positions@,
                    masses@,
                    params.gravity as int,
                    params.softening as int,
                    i,
                    ax,
                ));
            }
        }
        Ok(
            Universe::assemble(
                positions,
                velocities,
                accelerations,
                masses,
                params,
            ),
        )
    }
}

} // verus!
