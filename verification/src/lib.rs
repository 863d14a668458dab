//! A deterministic flocking (boids) simulation core.
//!
//! A fixed population of agents, each with a position and a velocity, is
//! advanced one tick at a time: three steering rules (cohesion, separation,
//! alignment) are averaged over the neighbours of each agent, blended into an
//! acceleration under tunable multipliers, integrated into velocity and
//! position, clamped to a top speed, and wrapped at the viewport edge.
//!
//! All quantities are integers: world coordinates and speeds are plain units,
//! while the tick length and the force multipliers are fixed-point values in
//! thousandths (`SCALE`), so one second is `1000` and a multiplier of one is
//! `1000`.

use vstd::prelude::*;

pub mod agent;
pub mod forces;
pub mod laws;
pub mod motion;
pub mod num;
pub mod params;
mod random;
pub mod sim;
pub mod vec2;

pub use agent::Agent;
pub use agent::Forces;
pub use num::div_trunc;
pub use num::isqrt;
pub use num::isqrt_ceil;
pub use params::SimParams;
pub use sim::SimState;
pub use sim::tick_spec;
pub use params::Viewport;
pub use vec2::V2;

verus! {

/// Top speed of an agent, in units per second.
pub const MAX_SPEED: i64 = 500;

/// An agent within this distance contributes to the cohesion average.
pub const COHESION_RADIUS: i64 = 200;

/// An agent within this distance contributes to the separation average.
pub const SEPARATION_RADIUS: i64 = 100;

/// An agent within this distance contributes to the alignment average.
pub const ALIGNMENT_RADIUS: i64 = 100;

/// How far beyond the viewport an agent may drift before it wraps, and how
/// far beyond the opposite edge it reappears.
pub const WRAP_MARGIN: i64 = 16;

/// Fixed-point denominator: the tick length and the multipliers are given in
/// thousandths.
pub const SCALE: i64 = 1000;

/// Viewport edges must lie within this many units of the origin.
pub const COORD_LIMIT: i64 = 1_000_000;

/// Bound on either coordinate of a wrapped position: the viewport edge plus
/// the wrap margin.
pub const POS_LIMIT: i64 = 1_000_016;

/// Largest accepted tick length, in thousandths of a second.
pub const DT_LIMIT: i64 = 10_000;

/// Largest accepted magnitude of a force multiplier, in thousandths.
pub const MUL_LIMIT: i64 = 100_000;

/// Bound on either component of a blended acceleration.
pub const ACC_LIMIT: i64 = 1_000_000_000;

/// Largest accepted population.
pub const MAX_AGENTS: usize = 10_000;

/// How far a clamped velocity can carry an agent in one tick:
/// `MAX_SPEED * DT_LIMIT / SCALE`.
pub const STEP_LIMIT: i64 = 5_000;

} // verus!
