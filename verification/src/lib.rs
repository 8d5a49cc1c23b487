//! Core of an interactive 2D particle simulation: a grid of point masses
//! mutually attract each other and are pulled toward user-controlled
//! attraction points.
//!
//! The kernel works on integer world coordinates. Every quantity is a plain
//! integer; the host shell converts to and from its own floating-point
//! representation at the boundary. All arithmetic here is exact and verified:
//! force accumulation, acceleration and velocity clamping, and the runtime
//! tunable parameter set.

pub mod frame;
pub mod grid;
pub mod hud;
pub mod kernel;
pub mod math;
pub mod tunables;
pub mod vec2;

use vstd::prelude::*;

verus! {

/// Number of particles along each axis of the spawn grid (total = GRID^2).
pub const SPAWN_GRID_WIDTH: usize = 16;

/// Mass of every attractor point, a fixed constant distinct from particle mass.
pub const ATTRACTOR_MASS: i64 = 10000;

/// Mass of every particle (uniform across all particles).
pub const PARTICLE_MASS: i64 = 1;

/// Fixed maximum speed: velocities are clamped to this magnitude every frame.
pub const MAX_PARTICLE_VELOCITY: i64 = 500;

/// Floor substituted for the squared separation between two points, so the
/// force law never divides by a vanishing distance.
pub const DIST_SQ_FLOOR: u64 = 1;

} // verus!
