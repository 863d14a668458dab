//! The simulation state and the tick scheduler: the nine steps of a tick in
//! their fixed order, and the population's lifecycle.

use vstd::prelude::*;
use crate::agent::agent_ok;
use crate::agent::forces_zero;
use crate::agent::snapshot_ok;
use crate::agent::views;
use crate::agent::Agent;
use crate::agent::AgentG;
use crate::forces::alignment;
use crate::forces::alignment_stage;
use crate::forces::cohesion;
use crate::forces::cohesion_stage;
use crate::forces::reset_forces;
use crate::forces::reset_forces_stage;
use crate::forces::separation;
use crate::forces::separation_stage;
use crate::motion::apply_forces;
use crate::motion::blend_stage;
use crate::motion::move_boids;
use crate::motion::move_stage;
use crate::motion::reset_acc_stage;
use crate::motion::reset_acceleration;
use crate::motion::rotate;
use crate::motion::rotate_stage;
use crate::motion::screen_wrap;
use crate::motion::wrap_stage;
use crate::params::SimParams;
use crate::params::Viewport;
use crate::random::random_in_range;
use crate::vec2::g_len_sq;
use crate::vec2::g_zero;
use crate::num::isqrt;
use crate::vec2::lemma_len_sq_comps;
use crate::vec2::V2;
use crate::DT_LIMIT;
use crate::MAX_AGENTS;
use crate::MAX_SPEED;
use crate::MUL_LIMIT;
use crate::POS_LIMIT;
use crate::STEP_LIMIT;
use crate::WRAP_MARGIN;

verus! {

/// The whole simulation: the fixed agent population and the shared
/// parameters.
pub struct SimState {
    pub agents: Vec<Agent>,
    pub params: SimParams,
}

/// What one tick does to a population snapshot under parameters `p`:
/// reset accelerations and accumulators, run the cohesion, separation and
/// alignment passes, blend the accumulators into accelerations, integrate,
/// turn each agent along its velocity, and wrap at the viewport — in that
/// fixed order.
pub open spec fn tick_spec(s: Seq<AgentG>, p: SimParams) -> Seq<AgentG> {
    wrap_stage(
        rotate_stage(
            move_stage(
                blend_stage(
                    alignment_stage(
                        separation_stage(
                            cohesion_stage(reset_forces_stage(reset_acc_stage(s))),
                        ),
                    ),
                    p.cohesion_mul_milli as int,
                    p.separation_mul_milli as int,
                    p.alignment_mul_milli as int,
                ),
                p.delta_milli as int,
            ),
        ),
        p.viewport,
    )
}

impl SimState {
    /// Every invariant the scheduler relies on between ticks.
    pub open spec fn wf(self) -> bool {
        &&& self.params.wf()
        &&& self.agents@.len() <= MAX_AGENTS
        &&& forall|k: int|
            0 <= k < self.agents@.len() ==> agent_ok(
                #[trigger] views(self.agents@)[k],
                self.params.viewport,
            )
    }

    /// A population handed over whole, with fresh parameters.
    pub fn from_agents(viewport: Viewport, agents: Vec<Agent>) -> (s: SimState)
        requires
            viewport.wf(),
            agents@.len() <= MAX_AGENTS,
            forall|k: int|
                0 <= k < agents@.len() ==> agent_ok(#[trigger] views(agents@)[k], viewport),
        ensures
            s.wf(),
            s.agents == agents,
            s.params == (SimParams {
                delta_milli: 0,
                cohesion_mul_milli: crate::SCALE,
                separation_mul_milli: crate::SCALE,
                alignment_mul_milli: crate::SCALE,
                viewport,
            }),
    {
        SimState { agents, params: SimParams::new(viewport) }
    }

    /// Build the fixed population: `agent_count` agents, each at a uniformly
    /// random position inside the viewport, heading a random way at the
    /// fixed top speed (to within the two units that integer coordinates on
    /// the speed circle allow).
    pub fn initialize(agent_count: usize, viewport: Viewport) -> (s: SimState)
        requires
            viewport.wf(),
            agent_count <= MAX_AGENTS,
        ensures
            s.wf(),
            s.agents@.len() == agent_count,
            s.params == (SimParams {
                delta_milli: 0,
                cohesion_mul_milli: crate::SCALE,
                separation_mul_milli: crate::SCALE,
                alignment_mul_milli: crate::SCALE,
                viewport,
            }),
            forall|k: int|
                0 <= k < agent_count ==> {
                    let a = #[trigger] views(s.agents@)[k];
                    viewport.min_x <= a.pos.x < viewport.max_x && viewport.min_y <= a.pos.y
                        < viewport.max_y && (MAX_SPEED - 2) * (MAX_SPEED - 2) <= g_len_sq(a.vel)
                        <= MAX_SPEED * MAX_SPEED && a.acc == g_zero() && a.forces
                        == forces_zero() && a.heading == a.vel
                },
    {
        let mut agents: Vec<Agent> = Vec::new();
        let mut i: usize = 0;
        while i < agent_count
            invariant
                i <= agent_count,
                agents@.len() == i,
                forall|k: int|
                    0 <= k < i ==> {
                        let a = (#[trigger] agents@[k])@;
                        viewport.min_x <= a.pos.x < viewport.max_x && viewport.min_y <= a.pos.y
                            < viewport.max_y && (MAX_SPEED - 2) * (MAX_SPEED - 2) <= g_len_sq(
                            a.vel,
                        ) <= MAX_SPEED * MAX_SPEED && a.acc == g_zero() && a.forces
                            == forces_zero() && a.heading == a.vel
                    },
                viewport.wf(),
            decreases agent_count - i,
        {
            let x = random_in_range(viewport.min_x, viewport.max_x);
            let y = random_in_range(viewport.min_y, viewport.max_y);
            // A random heading at the fixed speed: draw the x-component,
            // take the y-component from the speed circle, and flip its sign
            // at random. The rounded-down root leaves the speed within two
            // units of MAX_SPEED.
            let hx = random_in_range(-MAX_SPEED, MAX_SPEED);
            proof {
                assert(0 <= hx * hx <= MAX_SPEED * MAX_SPEED) by (nonlinear_arith)
                    requires
                        -500 <= hx < 500,
                ;
            }
            let rem: i64 = MAX_SPEED * MAX_SPEED - hx * hx;
            let hy64: u64 = isqrt(rem as u64);
            proof {
                assert(hy64 <= 500) by (nonlinear_arith)
                    requires
                        0 <= hy64,
                        (hy64 as int) * (hy64 as int) <= 250_000,
                ;
            }
            let hy: i64 = hy64 as i64;
            let flip = random_in_range(0, 2);
            let vy: i64 = if flip == 0 {
                hy
            } else {
                -hy
            };
            let vel = V2 { x: hx, y: vy };
            proof {
                assert((MAX_SPEED - 2) * (MAX_SPEED - 2) <= hx * hx + vy * vy <= MAX_SPEED
                    * MAX_SPEED) by (nonlinear_arith)
                    requires
                        (hy as int) * (hy as int) <= rem as int,
                        rem < (hy as int + 1) * (hy as int + 1),
                        rem == 250_000 - hx * hx,
                        0 <= hy <= 500,
                        vy == hy || vy == -hy,
                ;
            }
            let a = Agent::new(V2 { x, y }, vel);
            agents.push(a);
            i += 1;
        }
        let s = SimState { agents, params: SimParams::new(viewport) };
        proof {
            assert forall|k: int| 0 <= k < s.agents@.len() implies {
                let a = #[trigger] views(s.agents@)[k];
                agent_ok(a, s.params.viewport) && viewport.min_x <= a.pos.x < viewport.max_x
                    && viewport.min_y <= a.pos.y < viewport.max_y && (MAX_SPEED - 2) * (MAX_SPEED
                    - 2) <= g_len_sq(a.vel) <= MAX_SPEED * MAX_SPEED && a.acc == g_zero()
                    && a.forces == forces_zero() && a.heading == a.vel
            } by {
                assert(views(s.agents@)[k] == s.agents@[k]@);
            }
        }
        s
    }

    /// Tune the cohesion multiplier (fixed-point, in thousandths), effective
    /// from the next tick.
    pub fn set_cohesion_multiplier(&mut self, val_milli: i64)
        requires
            old(self).wf(),
            -MUL_LIMIT <= val_milli <= MUL_LIMIT,
        ensures
            final(self).wf(),
            final(self).agents == old(self).agents,
            final(self).params == (SimParams {
                cohesion_mul_milli: val_milli,
                ..old(self).params
            }),
    {
        self.params.cohesion_mul_milli = val_milli;
    }

    /// Tune the separation multiplier (fixed-point, in thousandths),
    /// effective from the next tick.
    pub fn set_separation_multiplier(&mut self, val_milli: i64)
        requires
            old(self).wf(),
            -MUL_LIMIT <= val_milli <= MUL_LIMIT,
        ensures
            final(self).wf(),
            final(self).agents == old(self).agents,
            final(self).params == (SimParams {
                separation_mul_milli: val_milli,
                ..old(self).params
            }),
    {
        self.params.separation_mul_milli = val_milli;
    }

    /// Tune the alignment multiplier (fixed-point, in thousandths),
    /// effective from the next tick.
    pub fn set_alignment_multiplier(&mut self, val_milli: i64)
        requires
            old(self).wf(),
            -MUL_LIMIT <= val_milli <= MUL_LIMIT,
        ensures
            final(self).wf(),
            final(self).agents == old(self).agents,
            final(self).params == (SimParams {
                alignment_mul_milli: val_milli,
                ..old(self).params
            }),
    {
        self.params.alignment_mul_milli = val_milli;
    }

    /// Advance the simulation one tick of `delta_milli` thousandths of a
    /// second: store the tick length, then run the nine steps in their fixed
    /// order. The result is exactly `tick_spec` of the entering population —
    /// in particular, every agent ends within the speed cap and within the
    /// wrapped viewport.
    pub fn tick(&mut self, delta_milli: i64)
        requires
            old(self).wf(),
            0 <= delta_milli <= DT_LIMIT,
        ensures
            final(self).wf(),
            final(self).agents@.len() == old(self).agents@.len(),
            final(self).params == (SimParams { delta_milli, ..old(self).params }),
            views(final(self).agents@) == tick_spec(
                views(old(self).agents@),
                (SimParams { delta_milli, ..old(self).params }),
            ),
            forall|k: int|
                0 <= k < final(self).agents@.len() ==> g_len_sq(
                    (#[trigger] views(final(self).agents@)[k]).vel,
                ) <= MAX_SPEED * MAX_SPEED,
    {
        let ghost s_in = views(self.agents@);
        let ghost p = SimParams { delta_milli, ..self.params };
        let vp = self.params.viewport;
        proof {
            assert(s_in == views(old(self).agents@));
            assert(forall|k: int|
                0 <= k < s_in.len() ==> agent_ok(#[trigger] s_in[k], vp));
        }
        self.params.delta_milli = delta_milli;

        reset_acceleration(&mut self.agents);
        let ghost s1 = reset_acc_stage(s_in);
        reset_forces(&mut self.agents);
        let ghost s2 = reset_forces_stage(s1);
        proof {
            assert forall|k: int| 0 <= k < s2.len() implies snapshot_ok(#[trigger] s2[k])
                && s2[k].forces == forces_zero() && s2[k].acc == g_zero() by {
                assert(agent_ok(s_in[k], vp));
                lemma_len_sq_comps(s_in[k].vel, MAX_SPEED as int);
            }
        }

        cohesion(&mut self.agents);
        let ghost s3 = cohesion_stage(s2);
        proof {
            assert forall|k: int| 0 <= k < s3.len() implies snapshot_ok(#[trigger] s3[k])
                && s3[k].forces.separation == g_zero() by {
                assert(s2[k].pos == s3[k].pos && s2[k].vel == s3[k].vel);
            }
        }
        separation(&mut self.agents);
        let ghost s4 = separation_stage(s3);
        proof {
            assert forall|k: int| 0 <= k < s4.len() implies snapshot_ok(#[trigger] s4[k])
                && s4[k].forces.alignment == g_zero() by {
                assert(s3[k].pos == s4[k].pos && s3[k].vel == s4[k].vel);
            }
        }
        alignment(&mut self.agents);
        let ghost s5 = alignment_stage(s4);
        proof {
            assert forall|k: int| 0 <= k < s5.len() implies crate::agent::forces_ok(
                (#[trigger] s5[k]).forces,
            ) && s5[k].acc == g_zero() by {
                assert(s5[k].forces.cohesion == s4[k].forces.cohesion);
                assert(s4[k].forces.cohesion == s3[k].forces.cohesion);
                assert(s5[k].forces.separation == s4[k].forces.separation);
            }
        }

        let cm = self.params.cohesion_mul_milli;
        let sm = self.params.separation_mul_milli;
        let am = self.params.alignment_mul_milli;
        apply_forces(&mut self.agents, cm, sm, am);
        let ghost s6 = blend_stage(s5, cm as int, sm as int, am as int);
        proof {
            assert forall|k: int| 0 <= k < s6.len() implies {
                let a = #[trigger] s6[k];
                g_len_sq(a.vel) <= MAX_SPEED * MAX_SPEED && -crate::ACC_LIMIT <= a.acc.x
                    <= crate::ACC_LIMIT && -crate::ACC_LIMIT <= a.acc.y <= crate::ACC_LIMIT
                    && -POS_LIMIT <= a.pos.x <= POS_LIMIT && -POS_LIMIT <= a.pos.y <= POS_LIMIT
            } by {
                assert(s6[k].pos == s5[k].pos && s6[k].vel == s5[k].vel);
                assert(snapshot_ok(s5[k]));
                assert(agent_ok(s_in[k], vp));
                assert(s5[k].vel == s_in[k].vel);
            }
        }
        move_boids(&mut self.agents, delta_milli);
        let ghost s7 = move_stage(s6, delta_milli as int);
        rotate(&mut self.agents);
        let ghost s8 = rotate_stage(s7);
        proof {
            assert forall|k: int| 0 <= k < s8.len() implies {
                let a = #[trigger] s8[k];
                -(POS_LIMIT + STEP_LIMIT) <= a.pos.x <= POS_LIMIT + STEP_LIMIT && -(POS_LIMIT
                    + STEP_LIMIT) <= a.pos.y <= POS_LIMIT + STEP_LIMIT
            } by {
                assert(s8[k].pos == s7[k].pos);
            }
        }
        screen_wrap(&mut self.agents, vp);
        let ghost s9 = wrap_stage(s8, vp);

        proof {
            assert(views(self.agents@) == s9);
            assert(s9 == tick_spec(s_in, p));
            assert forall|k: int| 0 <= k < s9.len() implies agent_ok(#[trigger] s9[k], vp) by {
                assert(s9[k].vel == s8[k].vel && s8[k].vel == s7[k].vel);
                assert(s9[k].acc == s7[k].acc && s7[k].acc == s6[k].acc);
                assert(s9[k].forces == s6[k].forces && s6[k].forces == s5[k].forces);
                assert(g_len_sq(s7[k].vel) <= MAX_SPEED * MAX_SPEED);
                assert(crate::agent::forces_ok(s5[k].forces));
                assert(vp.min_x - WRAP_MARGIN <= s9[k].pos.x <= vp.max_x + WRAP_MARGIN);
            }
        }
    }
}

} // verus!
