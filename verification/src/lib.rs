//! Gravitational N-body simulation kernel on fixed-point coordinates.
//!
//! The state of the simulation is a fixed-size set of point masses in
//! three-dimensional space.  Forces are evaluated by direct pairwise
//! summation with a softening regularization, and the system is advanced
//! by a kick-drift-kick leapfrog integrator.  All physical quantities are
//! carried as 64-bit fixed-point numbers (binary scale), so every
//! arithmetic step has an exact mathematical description.

pub mod fixed;
pub mod kernel;
pub mod laws;
pub mod init;
pub mod universe;

use vstd::prelude::*;

verus! {

/// The fixed-point value of one, i.e. the scale factor: stored values
/// represent `v / SCALE` in physical units.
pub const SCALE: i64 = 1073741824;

/// Largest magnitude a stored coordinate, velocity, acceleration, mass or
/// simulation constant may have; every public operation keeps the state
/// inside this range or reports `SimError::OutOfRange`.
pub const MAX_ABS: i64 = 1099511627776;

/// Smallest softening constant the fixed-point force kernel accepts: below
/// this, the softened cube of the distance underflows to zero.
pub const MIN_SOFTENING: i64 = 1024;

/// Largest particle count a system may hold.
pub const N_MAX: usize = 1048576;

/// The one failure the simulation can report: a computed quantity left the
/// representable fixed-point range.
#[derive(Clone, Copy, Debug, PartialEq, Eq, Structural)]
pub enum SimError {
    OutOfRange,
}

} // verus!
