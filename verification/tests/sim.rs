use nbody::init::center_velocities;
use nbody::universe::{SimParams, Universe};
use nbody::{SimError, MIN_SOFTENING, SCALE};

const FSCALE: f64 = 1073741824.0;

fn fp(x: f64) -> i64 {
    (x * FSCALE).round() as i64
}

fn fl(v: i64) -> f64 {
    v as f64 / FSCALE
}

fn small_params(n: usize) -> SimParams {
    SimParams { n, dt: 1073742, gravity: SCALE, softening: 1073742 }
}

#[test]
fn default_configuration() {
    let p = SimParams::default();
    assert_eq!(p.n, 1000);
    assert_eq!(p.gravity, SCALE);
    assert_eq!(p.dt, 1073742);
    assert_eq!(p.softening, 1073742);
}

#[test]
fn shape_and_mass_invariants() {
    let u = Universe::new(small_params(300)).unwrap();
    assert_eq!(u.n(), 300);
    assert_eq!(u.generation(), 0);
    let pv = u.positions_view();
    assert_eq!(pv.data.len(), 900);
    let masses = u.masses_view();
    assert_eq!(masses.len(), 300);
    for &m in masses.iter() {
        assert!(m > 0);
        assert!(fl(m) >= 0.0999999);
        assert!(fl(m) < 1.0);
    }
    for &p in pv.data.iter() {
        assert!(fl(p) >= -1.0);
        assert!(fl(p) < 1.0);
    }
}

#[test]
fn sampled_masses_vary() {
    // A sampler that ignored its range and echoed a constant would make
    // every mass identical; 300 independent uniform draws never are.
    let u = Universe::new(small_params(300)).unwrap();
    let masses = u.masses_view();
    let first = masses[0];
    assert!(masses.iter().any(|&m| m != first));
}

#[test]
fn two_body_analytic() {
    // Two bodies on the x axis, at rest: the initial acceleration of
    // each must match G * m_other / (d^2 + soft)^1.5 * d, directed
    // toward the other body.
    let m1 = 0.5;
    let m2 = 0.25;
    let d = 0.5;
    let soft = fl(1073742);
    let positions = vec![0, 0, 0, fp(d), 0, 0];
    let masses = vec![fp(m1), fp(m2)];
    let a = Universe::get_acceleration(&positions, &masses, SCALE, 1073742).unwrap();
    let inv = (d * d + soft).powf(-1.5);
    let a1_expected = m2 * inv * d;
    let a2_expected = -(m1 * inv * d);
    assert!((fl(a[0]) - a1_expected).abs() < 1e-4);
    assert!((fl(a[3]) - a2_expected).abs() < 1e-4);
    // No force off the separation axis.
    assert_eq!(a[1], 0);
    assert_eq!(a[2], 0);
    assert_eq!(a[4], 0);
    assert_eq!(a[5], 0);
}

#[test]
fn newton_third_law_two_body() {
    // Mass-weighted accelerations of an arbitrary pair are equal and
    // opposite within rounding tolerance on every axis.
    let positions = vec![fp(0.11), fp(-0.37), fp(0.54), fp(-0.62), fp(0.25), fp(-0.18)];
    let masses = vec![fp(0.73), fp(0.29)];
    let a = Universe::get_acceleration(&positions, &masses, SCALE, 1073742).unwrap();
    for ax in 0..3 {
        let f1 = 0.73 * fl(a[ax]);
        let f2 = 0.29 * fl(a[3 + ax]);
        assert!((f1 + f2).abs() < 1e-6);
    }
}

#[test]
fn self_force_is_zero() {
    // A lone particle feels exactly zero force, whatever the softening.
    for soft in [MIN_SOFTENING, 1073742, 107374182] {
        let positions = vec![fp(0.3), fp(-0.2), fp(0.1)];
        let masses = vec![fp(0.5)];
        let a = Universe::get_acceleration(&positions, &masses, SCALE, soft).unwrap();
        assert_eq!(a, vec![0, 0, 0]);
    }
}

#[test]
fn coincident_bodies_feel_no_force() {
    // Two bodies at the same point: the softening keeps the inverse cube
    // finite and the zero displacement makes every contribution exactly
    // zero — no guard branch is involved.
    let positions = vec![fp(0.25), fp(0.25), fp(0.25), fp(0.25), fp(0.25), fp(0.25)];
    let masses = vec![fp(0.9), fp(0.4)];
    let a = Universe::get_acceleration(&positions, &masses, SCALE, 1073742).unwrap();
    assert_eq!(a, vec![0, 0, 0, 0, 0, 0]);
}

#[test]
fn equal_masses_give_opposite_contributions() {
    // With equal masses the stored per-axis accelerations of a pair are
    // exact negatives of each other, not merely within tolerance.
    let positions = vec![fp(0.11), fp(-0.37), fp(0.54), fp(-0.62), fp(0.25), fp(-0.18)];
    let masses = vec![fp(0.73), fp(0.73)];
    let a = Universe::get_acceleration(&positions, &masses, SCALE, 1073742).unwrap();
    for ax in 0..3 {
        assert_eq!(a[ax], -a[3 + ax]);
    }
}

#[test]
fn force_computation_deterministic() {
    let positions = vec![fp(0.11), fp(-0.37), fp(0.54), fp(-0.62), fp(0.25), fp(-0.18)];
    let masses = vec![fp(0.73), fp(0.29)];
    let a1 = Universe::get_acceleration(&positions, &masses, SCALE, 1073742).unwrap();
    let a2 = Universe::get_acceleration(&positions, &masses, SCALE, 1073742).unwrap();
    assert_eq!(a1, a2);
}

#[test]
fn single_particle_drifts_linearly() {
    // One particle: zero acceleration, so each step advances the
    // position by the same velocity * dt increment, exactly.
    let mut u = Universe::new(small_params(1)).unwrap();
    let p0 = u.positions_view().data.clone();
    u.tick().unwrap();
    let p1 = u.positions_view().data.clone();
    u.tick().unwrap();
    let p2 = u.positions_view().data.clone();
    for k in 0..3 {
        let step_a = p1[k] - p0[k];
        let step_b = p2[k] - p1[k];
        assert_eq!(step_a, step_b);
    }
}

#[test]
fn single_particle_speed_constant() {
    // A lone particle feels no force, so its velocity — and with it the
    // total-speed diagnostic — is exactly unchanged by stepping.
    let mut u = Universe::new(small_params(1)).unwrap();
    let s0 = u.total_speed();
    assert!(s0 >= 0);
    u.tick().unwrap();
    u.tick().unwrap();
    assert_eq!(u.total_speed(), s0);
}

#[test]
fn tick_preserves_masses_and_advances_generation() {
    let mut u = Universe::new(small_params(50)).unwrap();
    let masses_before = u.masses_view().clone();
    let g0 = u.generation();
    u.tick().unwrap();
    assert_eq!(u.generation(), g0 + 1);
    assert_eq!(u.masses_view(), &masses_before);
}

#[test]
fn view_invalidated_by_step() {
    let mut u = Universe::new(small_params(50)).unwrap();
    let before = u.positions_view();
    assert!(before.is_current(&u));
    u.tick().unwrap();
    assert!(!before.is_current(&u));
    let after = u.positions_view();
    assert!(after.is_current(&u));
    // The positions really moved: a re-fetched view differs.
    assert_ne!(before.data, after.data);
}

#[test]
fn momentum_centering_exact_small_case() {
    // One particle of mass 1.0 with tiny velocity components (3, 6, 9)
    // in raw fixed-point units: the drift is (3 + 6 + 9) * 1 / 3 / 1 = 6,
    // subtracted from all three axes.
    let masses = vec![SCALE];
    let mut velocities = vec![3, 6, 9];
    center_velocities(&mut velocities, &masses);
    assert_eq!(velocities, vec![-3, 0, 3]);
}

#[test]
fn momentum_centering_formula() {
    // Two particles: each axis of particle i loses the same single
    // scalar (vx + vy + vz) * m_i / 3 / mean_mass, exactly as specified.
    let masses = vec![fp(0.5), fp(0.25)];
    let before = vec![fp(0.1), fp(0.2), fp(-0.1), fp(0.2), fp(-0.2), fp(0.1)];
    let mut after = before.clone();
    center_velocities(&mut after, &masses);
    let mean = (0.5 + 0.25) / 2.0;
    for i in 0..2 {
        let d0 = before[3 * i] - after[3 * i];
        let d1 = before[3 * i + 1] - after[3 * i + 1];
        let d2 = before[3 * i + 2] - after[3 * i + 2];
        // The same scalar comes off every axis of the particle.
        assert_eq!(d0, d1);
        assert_eq!(d1, d2);
        let vsum = fl(before[3 * i]) + fl(before[3 * i + 1]) + fl(before[3 * i + 2]);
        let mass = fl(masses[i]);
        let expected = vsum * mass / 3.0 / mean;
        assert!((fl(d0) - expected).abs() < 1e-6);
    }
}

#[test]
fn overflowing_force_is_reported() {
    // Extreme constants push a component past the representable range:
    // the kernel reports it instead of wrapping.
    let big = nbody::MAX_ABS;
    let positions = vec![0, 0, 0, 1, 0, 0];
    let masses = vec![big, big];
    let r = Universe::get_acceleration(&positions, &masses, big, MIN_SOFTENING);
    assert_eq!(r, Err(SimError::OutOfRange));
}
