//! Per-agent state: position, velocity, acceleration, the three raw force
//! accumulators, and the heading pushed to the agent's visual representation.

use vstd::prelude::*;
use crate::params::Viewport;
use crate::vec2::g_len_sq;
use crate::vec2::g_zero;
use crate::vec2::GV2;
use crate::vec2::V2;
use crate::ACC_LIMIT;
use crate::MAX_SPEED;
use crate::POS_LIMIT;
use crate::SEPARATION_RADIUS;
use crate::WRAP_MARGIN;

verus! {

/// The three per-rule steering accumulators, reset at the start of every tick.
#[derive(Clone, Copy, PartialEq, Eq, Structural, Debug)]
pub struct Forces {
    pub cohesion: V2,
    pub separation: V2,
    pub alignment: V2,
}

/// The mathematical value of a `Forces`.
pub ghost struct ForcesG {
    pub cohesion: GV2,
    pub separation: GV2,
    pub alignment: GV2,
}

impl View for Forces {
    type V = ForcesG;

    open spec fn view(&self) -> ForcesG {
        ForcesG { cohesion: self.cohesion@, separation: self.separation@, alignment: self.alignment@ }
    }
}

pub open spec fn forces_zero() -> ForcesG {
    ForcesG { cohesion: g_zero(), separation: g_zero(), alignment: g_zero() }
}

impl Forces {
    /// All three accumulators at zero.
    pub fn zero() -> (r: Forces)
        ensures
            r@ == forces_zero(),
    {
        Forces { cohesion: V2::zero(), separation: V2::zero(), alignment: V2::zero() }
    }

    /// Clear all three accumulators.
    pub fn reset(&mut self)
        ensures
            final(self)@ == forces_zero(),
    {
        *self = Forces::zero();
    }
}

/// One flock member.
#[derive(Clone, Copy, PartialEq, Eq, Structural, Debug)]
pub struct Agent {
    pub pos: V2,
    pub vel: V2,
    pub acc: V2,
    pub forces: Forces,
    pub heading: V2,
}

/// The mathematical value of an `Agent`.
pub ghost struct AgentG {
    pub pos: GV2,
    pub vel: GV2,
    pub acc: GV2,
    pub forces: ForcesG,
    pub heading: GV2,
}

impl View for Agent {
    type V = AgentG;

    open spec fn view(&self) -> AgentG {
        AgentG { pos: self.pos@, vel: self.vel@, acc: self.acc@, forces: self.forces@, heading: self.heading@ }
    }
}

/// The mathematical values of a stored agent population.
pub open spec fn views(s: Seq<Agent>) -> Seq<AgentG> {
    s.map_values(|a: Agent| a@)
}

/// What the three passes need of the snapshot they scan: positions within
/// the wrapped world, velocity components within the top speed.
pub open spec fn snapshot_ok(a: AgentG) -> bool {
    &&& -POS_LIMIT <= a.pos.x <= POS_LIMIT
    &&& -POS_LIMIT <= a.pos.y <= POS_LIMIT
    &&& -MAX_SPEED <= a.vel.x <= MAX_SPEED
    &&& -MAX_SPEED <= a.vel.y <= MAX_SPEED
}

/// Bounds the three accumulators can reach within one tick: a cohesion
/// average lies within twice the position bound, a separation average within
/// the separation radius, an alignment average within the top speed.
pub open spec fn forces_ok(f: ForcesG) -> bool {
    &&& -2 * POS_LIMIT <= f.cohesion.x <= 2 * POS_LIMIT
    &&& -2 * POS_LIMIT <= f.cohesion.y <= 2 * POS_LIMIT
    &&& -SEPARATION_RADIUS <= f.separation.x <= SEPARATION_RADIUS
    &&& -SEPARATION_RADIUS <= f.separation.y <= SEPARATION_RADIUS
    &&& -MAX_SPEED <= f.alignment.x <= MAX_SPEED
    &&& -MAX_SPEED <= f.alignment.y <= MAX_SPEED
}

/// A well-formed agent between ticks: position within the wrapped viewport,
/// speed within the cap, acceleration and accumulators bounded.
pub open spec fn agent_ok(a: AgentG, vp: Viewport) -> bool {
    &&& vp.min_x - WRAP_MARGIN <= a.pos.x <= vp.max_x + WRAP_MARGIN
    &&& vp.min_y - WRAP_MARGIN <= a.pos.y <= vp.max_y + WRAP_MARGIN
    &&& g_len_sq(a.vel) <= MAX_SPEED * MAX_SPEED
    &&& -ACC_LIMIT <= a.acc.x <= ACC_LIMIT
    &&& -ACC_LIMIT <= a.acc.y <= ACC_LIMIT
    &&& forces_ok(a.forces)
}

impl Agent {
    /// A fresh agent at `pos` moving at `vel`, with no pending acceleration
    /// or accumulated forces, heading along its velocity.
    pub fn new(pos: V2, vel: V2) -> (r: Agent)
        ensures
            r@ == (AgentG {
                pos: pos@,
                vel: vel@,
                acc: g_zero(),
                forces: forces_zero(),
                heading: vel@,
            }),
    {
        Agent { pos, vel, acc: V2::zero(), forces: Forces::zero(), heading: vel }
    }
}

} // verus!
