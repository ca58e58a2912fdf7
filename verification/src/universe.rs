//! The particle system: fixed-shape state, its structural invariant, and
//! the leapfrog integrator that advances it.

use crate::fixed::{fmul, lemma_fmul_bounds, tdiv};
use crate::kernel::{
    accel_at, accel_in_range, accel_seq, all_within, kernel_inputs_ok,
};
use crate::SimError;
use vstd::arithmetic::div_mod::lemma_fundamental_div_mod;
use vstd::prelude::*;

verus! {

/// Velocity component `k` after a half kick over time step `dt`:
/// `v + a * (dt / 2)`.
pub open spec fn vel_half(vel: Seq<i64>, acc: Seq<i64>, dt: int, k: int) -> int {
    vel[k] + fmul(acc[k] as int, tdiv(dt, 2))
}

/// Every half-kicked velocity component stays in fixed-point range.
pub open spec fn vel_half_ok(vel: Seq<i64>, acc: Seq<i64>, dt: int) -> bool {
    forall|k: int|
        0 <= k < vel.len() ==> -(crate::MAX_ABS as int) <= #[trigger] vel_half(vel, acc, dt, k)
            <= crate::MAX_ABS as int
}

/// The half-kicked velocity array; meaningful where `vel_half_ok` holds.
pub open spec fn vel_half_seq(vel: Seq<i64>, acc: Seq<i64>, dt: int) -> Seq<i64> {
    Seq::new(vel.len(), |k: int| vel_half(vel, acc, dt, k) as i64)
}

/// Position component `k` after a drift over the full time step:
/// `p + v * dt`.
pub open spec fn drift_at(pos: Seq<i64>, vel: Seq<i64>, dt: int, k: int) -> int {
    pos[k] + fmul(vel[k] as int, dt)
}

/// Every drifted position component stays in fixed-point range.
pub open spec fn drift_ok(pos: Seq<i64>, vel: Seq<i64>, dt: int) -> bool {
    forall|k: int|
        0 <= k < pos.len() ==> -(crate::MAX_ABS as int) <= #[trigger] drift_at(pos, vel, dt, k)
            <= crate::MAX_ABS as int
}

/// The drifted position array; meaningful where `drift_ok` holds.
pub open spec fn drift_seq(pos: Seq<i64>, vel: Seq<i64>, dt: int) -> Seq<i64> {
    Seq::new(pos.len(), |k: int| drift_at(pos, vel, dt, k) as i64)
}

/// The four simulation-wide constants, fixed when a system is built.
#[derive(Clone, Copy, Debug, PartialEq, Eq, Structural)]
pub struct SimParams {
    /// Number of particles.
    pub n: usize,
    /// Time step, fixed-point.
    pub dt: i64,
    /// Gravitational constant, fixed-point.
    pub gravity: i64,
    /// Softening constant, fixed-point.
    pub softening: i64,
}

/// The ranges in which the simulation constants are meaningful to the
/// fixed-point kernel.
pub open spec fn params_ok(par: SimParams) -> bool {
    &&& 1 <= par.n <= crate::N_MAX
    &&& 1 <= par.dt as int <= crate::MAX_ABS as int
    &&& 0 <= par.gravity as int <= crate::MAX_ABS as int
    &&& crate::MIN_SOFTENING as int <= par.softening as int <= crate::MAX_ABS as int
}

impl Default for SimParams {
    /// The default configuration: 1000 particles, and the nearest
    /// fixed-point values of dt = 0.001, G = 1.0, softening = 0.001.
    fn default() -> (r: SimParams)
        ensures
            r.n == 1000,
            r.dt == 1073742,
            r.gravity == crate::SCALE,
            r.softening == 1073742,
            params_ok(r),
    {
        SimParams { n: 1000, dt: 1073742, gravity: crate::SCALE, softening: 1073742 }
    }
}

/// The velocities after the first half kick of a step of `u`.
pub open spec fn step_v1(u: Universe) -> Seq<i64> {
    vel_half_seq(u.vel(), u.acc(), u.par().dt as int)
}

/// The positions after the drift phase of a step of `u`.
pub open spec fn step_pos(u: Universe) -> Seq<i64> {
    drift_seq(u.pos(), step_v1(u), u.par().dt as int)
}

/// The accelerations recomputed at the drifted positions of a step of `u`.
pub open spec fn step_acc(u: Universe) -> Seq<i64> {
    accel_seq(step_pos(u), u.mass(), u.par().gravity as int, u.par().softening as int)
}

/// The velocities after the second half kick of a step of `u`.
pub open spec fn step_vel(u: Universe) -> Seq<i64> {
    vel_half_seq(step_v1(u), step_acc(u), u.par().dt as int)
}

/// Whether one leapfrog step of `u` stays within the fixed-point range
/// at every phase; exactly then does `tick` succeed.
pub open spec fn step_ok(u: Universe) -> bool {
    &&& vel_half_ok(u.vel(), u.acc(), u.par().dt as int)
    &&& drift_ok(u.pos(), step_v1(u), u.par().dt as int)
    &&& accel_in_range(step_pos(u), u.mass(), u.par().gravity as int, u.par().softening as int)
    &&& vel_half_ok(step_v1(u), step_acc(u), u.par().dt as int)
}

/// The speed of particle `i`: the integer square root of the scaled
/// squared magnitude of its velocity, in fixed point.
pub open spec fn speed_at(vel: Seq<i64>, i: int) -> int {
    crate::fixed::sqrt_floor(
        (fmul(vel[3 * i] as int, vel[3 * i] as int) + fmul(
            vel[3 * i + 1] as int,
            vel[3 * i + 1] as int,
        ) + fmul(vel[3 * i + 2] as int, vel[3 * i + 2] as int)) * (crate::SCALE as int),
    )
}

/// Sum of the speeds of the first `k` particles.
pub open spec fn speed_sum(vel: Seq<i64>, k: int) -> int
    decreases k,
{
    if k <= 0 {
        0
    } else {
        speed_sum(vel, k - 1) + speed_at(vel, k - 1)
    }
}

/// The particle system: per-particle arrays, the constants they were
/// built with, and a generation counter that ticks once per step.
pub struct Universe {
    positions: Vec<i64>,
    velocities: Vec<i64>,
    accelerations: Vec<i64>,
    masses: Vec<i64>,
    params: SimParams,
    generation: u64,
}

/// A snapshot of the position buffer, stamped with the generation of the
/// system it was taken from; it is current only until the next step.
pub struct PositionsView {
    /// Row-major copy of the positions at the time of the snapshot.
    pub data: Vec<i64>,
    /// The owning system's generation when the snapshot was taken.
    pub generation: u64,
}

impl Universe {
    /// The position array, row-major, as the specification sees it.
    pub closed spec fn pos(&self) -> Seq<i64> {
        self.positions@
    }

    /// The velocity array, row-major, as the specification sees it.
    pub closed spec fn vel(&self) -> Seq<i64> {
        self.velocities@
    }

    /// The acceleration array, row-major, as the specification sees it.
    pub closed spec fn acc(&self) -> Seq<i64> {
        self.accelerations@
    }

    /// The mass array as the specification sees it.
    pub closed spec fn mass(&self) -> Seq<i64> {
        self.masses@
    }

    /// The constants the system was built with.
    pub closed spec fn par(&self) -> SimParams {
        self.params
    }

    /// The generation counter: how many steps have completed.
    pub closed spec fn gen(&self) -> int {
        self.generation as int
    }

    /// Well-formedness: the four arrays have the fixed shape, every mass
    /// is positive, every stored quantity is in fixed-point range, and
    /// the acceleration array equals the force computer's output on the
    /// current positions and masses.
    pub open spec fn wf(&self) -> bool {
        &&& params_ok(self.par())
        &&& self.mass().len() == self.par().n as int
        &&& self.vel().len() == 3 * self.par().n as int
        &&& self.acc().len() == 3 * self.par().n as int
        &&& kernel_inputs_ok(
            self.pos(),
            self.mass(),
            self.par().gravity as int,
            self.par().softening as int,
        )
        &&& all_within(self.vel(), crate::MAX_ABS as int)
        &&& all_within(self.acc(), crate::MAX_ABS as int)
        &&& forall|i: int, ax: int|
            0 <= i < self.par().n as int && 0 <= ax < 3 ==> #[trigger] self.acc()[3 * i + ax] as int
                == accel_at(
                self.pos(),
                self.mass(),
                self.par().gravity as int,
                self.par().softening as int,
                i,
                ax,
            )
    }

    /// Assemble a system, at generation zero, from arrays that already
    /// satisfy the structural invariant.
    pub(crate) fn assemble(
        positions: Vec<i64>,
        velocities: Vec<i64>,
        accelerations: Vec<i64>,
        masses: Vec<i64>,
        params: SimParams,
    ) -> (u: Universe)
        requires
            params_ok(params),
            masses@.len() == params.n as int,
            velocities@.len() == 3 * params.n as int,
            accelerations@.len() == 3 * params.n as int,
            kernel_inputs_ok(positions@, masses@, params.gravity as int, params.softening as int),
            all_within(velocities@, crate::MAX_ABS as int),
            all_within(accelerations@, crate::MAX_ABS as int),
            forall|i: int, ax: int|
                0 <= i < params.n as int && 0 <= ax < 3 ==> #[trigger] accelerations@[3 * i
                    + ax] as int == accel_at(
                    positions@,
                    masses@,
                    params.gravity as int,
                    params.softening as int,
                    i,
                    ax,
                ),
        ensures
            u.wf(),
            u.pos() == positions@,
            u.vel() == velocities@,
            u.acc() == accelerations@,
            u.mass() == masses@,
            u.par() == params,
            u.gen() == 0,
    {
        Universe { positions, velocities, accelerations, masses, params, generation: 0 }
    }

    /// How many particles the system holds.
    pub fn n(&self) -> (r: usize)
        ensures
            r == self.par().n,
    {
        self.params.n
    }

    /// The constants the system was built with.
    pub fn params(&self) -> (r: SimParams)
        ensures
            r == self.par(),
    {
        self.params
    }

    /// The generation counter: how many steps have completed.
    pub fn generation(&self) -> (r: u64)
        ensures
            r as int == self.gen(),
    {
        self.generation
    }

    /// Diagnostic: the total speed of the ensemble, the sum of the
    /// per-particle velocity magnitudes in fixed point.  Reads the state
    /// and changes nothing.
    #[verifier::loop_isolation(false)]
    pub fn total_speed(&self) -> (r: i64)
        requires
            self.wf(),
        ensures
            r as int == speed_sum(self.vel(), self.par().n as int),
            r >= 0,
    {
        let n: usize = self.params.n;
        let mut sum: i128 = 0;
        let mut i: usize = 0;
        while i < n
            invariant
                i <= n,
                sum as int == speed_sum(self.vel(), i as int),
                0 <= sum as int <= (i as int) * 0x40000000000,
            decreases n - i,
        {
            let vx: i128 = self.velocities[3 * i] as i128;
            let vy: i128 = self.velocities[3 * i + 1] as i128;
            let vz: i128 = self.velocities[3 * i + 2] as i128;
            proof {
                lemma_fmul_bounds(vx as int, vx as int, 0x10000000000, 0x10000000000);
                lemma_fmul_bounds(vy as int, vy as int, 0x10000000000, 0x10000000000);
                lemma_fmul_bounds(vz as int, vz as int, 0x10000000000, 0x10000000000);
                crate::fixed::lemma_fmul_square(vx as int);
                crate::fixed::lemma_fmul_square(vy as int);
                crate::fixed::lemma_fmul_square(vz as int);
            }
            let x2: i128 = crate::fixed::fmul_i128(vx, vx);
            let y2: i128 = crate::fixed::fmul_i128(vy, vy);
            let z2: i128 = crate::fixed::fmul_i128(vz, vz);
            let r2v: i128 = x2 + y2 + z2;
            proof {
                assert(crate::SCALE as int == 0x40000000);
                assert(0 <= r2v as int <= 0xc000000000000);
                assert((r2v as int) * 0x40000000 <= 0x300000000000000000000) by (nonlinear_arith)
                    requires
                        0 <= r2v as int <= 0xc000000000000,
                ;
            }
            let scaled: i128 = r2v * (crate::SCALE as i128);
            let root: u128 = crate::fixed::isqrt_u128(scaled as u128);
            proof {
                assert((0x3ffffffffffint + 1) * (0x3ffffffffff + 1) > scaled as int)
                    by (nonlinear_arith)
                    requires
                        (scaled as int) < 0x400000000000000000000,
                ;
                crate::fixed::lemma_sqrt_bounds(scaled as int, 0, 0x3ffffffffff);
            }
            sum = sum + root as i128;
            i = i + 1;
        }
        sum as i64
    }

    /// A read-only snapshot of the position buffer, stamped with the
    /// current generation; a later step invalidates it.
    pub fn positions_view(&self) -> (v: PositionsView)
        ensures
            v.data@ == self.pos(),
            v.generation as int == self.gen(),
    {
        PositionsView { data: self.positions.clone(), generation: self.generation }
    }

    /// A read-only view of the mass buffer; masses never change over the
    /// system's lifetime, so this view is stable.
    pub fn masses_view(&self) -> (r: &Vec<i64>)
        ensures
            r@ == self.mass(),
    {
        &self.masses
    }
}

/// One half-kick pass: every velocity component gets `a * (dt / 2)`
/// added.  Returns the updated array, or reports that a component left
/// the fixed-point range — and exactly then.
#[verifier::loop_isolation(false)]
fn kicked(vel: &Vec<i64>, acc: &Vec<i64>, dt: i64) -> (r: Result<Vec<i64>, SimError>)
    requires
        vel@.len() == acc@.len(),
        all_within(vel@, crate::MAX_ABS as int),
        all_within(acc@, crate::MAX_ABS as int),
        1 <= dt as int <= crate::MAX_ABS as int,
    ensures
        r is Ok <==> vel_half_ok(vel@, acc@, dt as int),
        r matches Ok(v) ==> v@ == vel_half_seq(vel@, acc@, dt as int),
        r matches Err(e) ==> e == SimError::OutOfRange,
{
    let hd: i64 = ((dt as u64) / 2) as i64;
    proof {
        assert(hd as int == tdiv(dt as int, 2));
        assert(crate::MAX_ABS as int == 0x10000000000);
    }
    let n: usize = vel.len();
    let mut out: Vec<i64> = Vec::new();
    let mut k: usize = 0;
    while k < n
        invariant
            k <= n,
            out@.len() == k,
            forall|k2: int|
                0 <= k2 < k ==> #[trigger] out@[k2] as int == vel_half(vel@, acc@, dt as int, k2),
            forall|k2: int|
                0 <= k2 < k ==> -(crate::MAX_ABS as int) <= #[trigger] vel_half(
                    vel@,
                    acc@,
                    dt as int,
                    k2,
                ) <= crate::MAX_ABS as int,
        decreases n - k,
    {
        proof {
            lemma_fmul_bounds(acc@[k as int] as int, hd as int, 0x10000000000, 0x10000000000);
        }
        let dv: i128 = crate::fixed::fmul_i128(acc[k] as i128, hd as i128);
        let v: i128 = vel[k] as i128 + dv;
        proof {
            assert(v as int == vel_half(vel@, acc@, dt as int, k as int));
        }
        if v < -(crate::MAX_ABS as i128) || v > crate::MAX_ABS as i128 {
            proof {
                assert(!vel_half_ok(vel@, acc@, dt as int));
            }
            return Err(SimError::OutOfRange);
        }
        out.push(v as i64);
        k = k + 1;
    }
    proof {
        assert(out@ =~= vel_half_seq(vel@, acc@, dt as int));
    }
    Ok(out)
}

/// The drift pass: every position component gets `v * dt` added.
/// Returns the updated array, or reports that a component left the
/// fixed-point range — and exactly then.
#[verifier::loop_isolation(false)]
fn drifted(pos: &Vec<i64>, vel: &Vec<i64>, dt: i64) -> (r: Result<Vec<i64>, SimError>)
    requires
        pos@.len() == vel@.len(),
        all_within(pos@, crate::MAX_ABS as int),
        all_within(vel@, crate::MAX_ABS as int),
        1 <= dt as int <= crate::MAX_ABS as int,
    ensures
        r is Ok <==> drift_ok(pos@, vel@, dt as int),
        r matches Ok(v) ==> v@ == drift_seq(pos@, vel@, dt as int),
        r matches Err(e) ==> e == SimError::OutOfRange,
{
    proof {
        assert(crate::MAX_ABS as int == 0x10000000000);
    }
    let n: usize = pos.len();
    let mut out: Vec<i64> = Vec::new();
    let mut k: usize = 0;
    while k < n
        invariant
            k <= n,
            out@.len() == k,
            forall|k2: int|
                0 <= k2 < k ==> #[trigger] out@[k2] as int == drift_at(pos@, vel@, dt as int, k2),
            forall|k2: int|
                0 <= k2 < k ==> -(crate::MAX_ABS as int) <= #[trigger] drift_at(
                    pos@,
                    vel@,
                    dt as int,
                    k2,
                ) <= crate::MAX_ABS as int,
        decreases n - k,
    {
        proof {
            lemma_fmul_bounds(vel@[k as int] as int, dt as int, 0x10000000000, 0x10000000000);
        }
        let dp: i128 = crate::fixed::fmul_i128(vel[k] as i128, dt as i128);
        let p: i128 = pos[k] as i128 + dp;
        proof {
            assert(p as int == drift_at(pos@, vel@, dt as int, k as int));
        }
        if p < -(crate::MAX_ABS as i128) || p > crate::MAX_ABS as i128 {
            proof {
                assert(!drift_ok(pos@, vel@, dt as int));
            }
            return Err(SimError::OutOfRange);
        }
        out.push(p as i64);
        k = k + 1;
    }
    proof {
        assert(out@ =~= drift_seq(pos@, vel@, dt as int));
    }
    Ok(out)
}

impl Universe {
    /// Advance the system one time step by kick-drift-kick leapfrog: a
    /// half kick with the stored acceleration, a drift of the positions,
    /// a full recomputation of the acceleration at the new positions,
    /// then a half kick with the new acceleration.  Masses and constants
    /// never change.  Either every phase stays in fixed-point range and
    /// the whole new state is committed with the generation advanced, or
    /// the state is left exactly as it was and the overflow is reported.
    pub fn tick(&mut self) -> (r: Result<(), SimError>)
        requires
            old(self).wf(),
            old(self).gen() < u64::MAX as int,
        ensures
            final(self).par() == old(self).par(),
            final(self).mass() == old(self).mass(),
            r is Ok <==> step_ok(*old(self)),
            r matches Err(e) ==> e == SimError::OutOfRange && *final(self) == *old(self),
            r is Ok ==> final(self).wf() && final(self).gen() == old(self).gen() + 1
                && final(self).pos() == step_pos(*old(self)) && final(self).acc() == step_acc(
                *old(self),
            ) && final(self).vel() == step_vel(*old(self)),
    {
        let ghost m = self.masses@;
        let ghost g = self.params.gravity as int;
        let ghost soft = self.params.softening as int;
        let ghost dt = self.params.dt as int;
        let v1 = match kicked(&self.velocities, &self.accelerations, self.params.dt) {
            Ok(v) => v,
            Err(e) => {
                return Err(e);
            },
        };
        proof {
            assert(v1@ == step_v1(*old(self)));
        }
        let p1 = match drifted(&self.positions, &v1, self.params.dt) {
            Ok(v) => v,
            Err(e) => {
                return Err(e);
            },
        };
        proof {
            assert(p1@ == step_pos(*old(self)));
            assert forall|k: int| 0 <= k < p1@.len() implies -(crate::MAX_ABS as int)
                <= #[trigger] p1@[k] as int <= crate::MAX_ABS as int by {
                assert(p1@[k] as int == drift_at(self.positions@, v1@, dt, k));
            }
            assert(kernel_inputs_ok(p1@, m, g, soft));
        }
        let a1 = match Universe::get_acceleration(
            &p1,
            &self.masses,
            self.params.gravity,
            self.params.softening,
        ) {
            Ok(v) => v,
            Err(e) => {
                return Err(e);
            },
        };
        proof {
            assert forall|k: int| 0 <= k < p1@.len() implies a1@[k] == accel_seq(
                p1@,
                m,
                g,
                soft,
            )[k] by {
                lemma_fundamental_div_mod(k, 3);
                let i = k / 3;
                let ax = k % 3;
                assert(0 <= ax < 3);
                assert(0 <= i < m.len());
                assert(a1@[3 * i + ax] as int == accel_at(p1@, m, g, soft, i, ax));
            }
            assert(a1@ =~= accel_seq(p1@, m, g, soft));
            assert(a1@ == step_acc(*old(self)));
            assert forall|k: int| 0 <= k < a1@.len() implies -(crate::MAX_ABS as int)
                <= #[trigger] a1@[k] as int <= crate::MAX_ABS as int by {
                lemma_fundamental_div_mod(k, 3);
                let i = k / 3;
                let ax = k % 3;
                assert(a1@[3 * i + ax] as int == accel_at(p1@, m, g, soft, i, ax));
            }
        }
        let v2 = match kicked(&v1, &a1, self.params.dt) {
            Ok(v) => v,
            Err(e) => {
                return Err(e);
            },
        };
        proof {
            assert(v2@ == step_vel(*old(self)));
            assert forall|k: int| 0 <= k < v2@.len() implies -(crate::MAX_ABS as int)
                <= #[trigger] v2@[k] as int <= crate::MAX_ABS as int by {
                assert(v2@[k] as int == vel_half(v1@, a1@, dt, k));
            }
        }
        self.positions = p1;
        self.velocities = v2;
        self.accelerations = a1;
        self.generation = self.generation + 1;
        proof {
            assert(self.wf());
        }
        Ok(())
    }
}

impl PositionsView {
    /// Whether this snapshot still reflects the system's positions: true
    /// exactly when no step has completed since it was taken.
    pub fn is_current(&self, u: &Universe) -> (r: bool)
        ensures
            r == (self.generation as int == u.gen()),
    {
        self.generation == u.generation
    }
}

} // verus!
