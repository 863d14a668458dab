//! The integration steps of a tick: reset acceleration, blend the
//! accumulated forces into it, integrate velocity and position under the
//! speed cap, turn each agent along its velocity, and wrap at the viewport.

use vstd::prelude::*;
use crate::agent::forces_ok;
use crate::agent::views;
use crate::agent::Agent;
use crate::agent::AgentG;
use crate::num::div_trunc;
use crate::num::lemma_tdiv_bounded;
use crate::params::Viewport;
use crate::vec2::g_add;
use crate::vec2::g_clamped;
use crate::vec2::g_len_sq;
use crate::vec2::g_mul_div;
use crate::vec2::g_zero;
use crate::vec2::lemma_len_sq_comps;
use crate::vec2::GV2;
use crate::vec2::V2;
use crate::ACC_LIMIT;
use crate::DT_LIMIT;
use crate::MAX_SPEED;
use crate::MUL_LIMIT;
use crate::POS_LIMIT;
use crate::SCALE;
use crate::STEP_LIMIT;
use crate::WRAP_MARGIN;

verus! {

/// `a` with its acceleration replaced.
pub open spec fn with_acc(a: AgentG, v: GV2) -> AgentG {
    AgentG { pos: a.pos, vel: a.vel, acc: v, forces: a.forces, heading: a.heading }
}

/// The acceleration-reset step over a population snapshot.
pub open spec fn reset_acc_stage(s: Seq<AgentG>) -> Seq<AgentG> {
    Seq::new(s.len(), |i: int| with_acc(s[i], g_zero()))
}

/// One agent after the force blend: its acceleration gains each accumulator
/// scaled by that rule's fixed-point multiplier.
pub open spec fn blend_agent(a: AgentG, cm: int, sm: int, am: int) -> AgentG {
    with_acc(
        a,
        g_add(
            g_add(
                g_add(a.acc, g_mul_div(a.forces.cohesion, cm, SCALE as int)),
                g_mul_div(a.forces.separation, sm, SCALE as int),
            ),
            g_mul_div(a.forces.alignment, am, SCALE as int),
        ),
    )
}

/// The force-blend step over a population snapshot.
pub open spec fn blend_stage(s: Seq<AgentG>, cm: int, sm: int, am: int) -> Seq<AgentG> {
    Seq::new(s.len(), |i: int| blend_agent(s[i], cm, sm, am))
}

/// One agent after integration: acceleration joins the velocity, the speed
/// cap applies, and the clamped velocity carries the position for `dt`
/// thousandths of a second.
pub open spec fn move_agent(a: AgentG, dt: int) -> AgentG {
    let v = g_clamped(g_add(a.vel, a.acc), MAX_SPEED as int);
    AgentG {
        pos: g_add(a.pos, g_mul_div(v, dt, SCALE as int)),
        vel: v,
        acc: a.acc,
        forces: a.forces,
        heading: a.heading,
    }
}

/// The integration step over a population snapshot.
pub open spec fn move_stage(s: Seq<AgentG>, dt: int) -> Seq<AgentG> {
    Seq::new(s.len(), |i: int| move_agent(s[i], dt))
}

/// One agent after the heading update: it points along its velocity.
pub open spec fn rotate_agent(a: AgentG) -> AgentG {
    AgentG { pos: a.pos, vel: a.vel, acc: a.acc, forces: a.forces, heading: a.vel }
}

/// The heading step over a population snapshot.
pub open spec fn rotate_stage(s: Seq<AgentG>) -> Seq<AgentG> {
    Seq::new(s.len(), |i: int| rotate_agent(s[i]))
}

/// One coordinate after the wrap: a value more than `WRAP_MARGIN` beyond
/// either edge reappears `WRAP_MARGIN` beyond the opposite edge.
pub open spec fn wrap1(x: int, lo: int, hi: int) -> int {
    if x < lo - WRAP_MARGIN {
        hi + WRAP_MARGIN
    } else if x > hi + WRAP_MARGIN {
        lo - WRAP_MARGIN
    } else {
        x
    }
}

/// One agent after the wrap, each axis treated independently.
pub open spec fn wrap_agent(a: AgentG, vp: Viewport) -> AgentG {
    AgentG {
        pos: GV2 {
            x: wrap1(a.pos.x, vp.min_x as int, vp.max_x as int),
            y: wrap1(a.pos.y, vp.min_y as int, vp.max_y as int),
        },
        vel: a.vel,
        acc: a.acc,
        forces: a.forces,
        heading: a.heading,
    }
}

/// The wrap step over a population snapshot.
pub open spec fn wrap_stage(s: Seq<AgentG>, vp: Viewport) -> Seq<AgentG> {
    Seq::new(s.len(), |i: int| wrap_agent(s[i], vp))
}

/// Zero every agent's acceleration, before the passes of a new tick.
#[verifier::loop_isolation(false)]
pub fn reset_acceleration(agents: &mut Vec<Agent>)
    ensures
        views(final(agents)@) == reset_acc_stage(views(old(agents)@)),
{
    let ghost s0 = views(agents@);
    let n = agents.len();
    let mut i: usize = 0;
    while i < n
        invariant
            agents@.len() == n,
            forall|k: int| i <= k < n ==> views(agents@)[k] == s0[k],
            forall|k: int| 0 <= k < i ==> views(agents@)[k] == reset_acc_stage(s0)[k],
        decreases n - i,
    {
        let mut a = agents[i];
        a.acc = V2::zero();
        agents[i] = a;
        i += 1;
    }
    proof {
        assert(views(agents@) =~= reset_acc_stage(s0));
    }
}

/// Blend the three accumulators into every agent's acceleration, each scaled
/// by its fixed-point multiplier.
#[verifier::loop_isolation(false)]
pub fn apply_forces(agents: &mut Vec<Agent>, cm: i64, sm: i64, am: i64)
    requires
        -MUL_LIMIT <= cm <= MUL_LIMIT,
        -MUL_LIMIT <= sm <= MUL_LIMIT,
        -MUL_LIMIT <= am <= MUL_LIMIT,
        forall|k: int|
            0 <= k < old(agents)@.len() ==> forces_ok(
                (#[trigger] views(old(agents)@)[k]).forces,
            ),
        forall|k: int|
            0 <= k < old(agents)@.len() ==> (#[trigger] views(old(agents)@)[k]).acc == g_zero(),
    ensures
        views(final(agents)@) == blend_stage(views(old(agents)@), cm as int, sm as int, am as int),
        forall|k: int|
            0 <= k < final(agents)@.len() ==> {
                let a = (#[trigger] views(final(agents)@)[k]).acc;
                -ACC_LIMIT <= a.x <= ACC_LIMIT && -ACC_LIMIT <= a.y <= ACC_LIMIT
            },
{
    let ghost s0 = views(agents@);
    proof {
        assert(s0 == views(old(agents)@));
        assert(forall|k: int| 0 <= k < s0.len() ==> forces_ok((#[trigger] s0[k]).forces));
        assert(forall|k: int| 0 <= k < s0.len() ==> (#[trigger] s0[k]).acc == g_zero());
    }
    let n = agents.len();
    let mut i: usize = 0;
    while i < n
        invariant
            agents@.len() == n,
            forall|k: int| i <= k < n ==> views(agents@)[k] == s0[k],
            forall|k: int|
                0 <= k < i ==> views(agents@)[k] == #[trigger] blend_stage(
                    s0,
                    cm as int,
                    sm as int,
                    am as int,
                )[k],
            forall|k: int|
                0 <= k < i ==> {
                    let a = (#[trigger] blend_stage(s0, cm as int, sm as int, am as int)[k]).acc;
                    -ACC_LIMIT <= a.x <= ACC_LIMIT && -ACC_LIMIT <= a.y <= ACC_LIMIT
                },
        decreases n - i,
    {
        let mut a = agents[i];
        proof {
            assert(views(agents@)[i as int] == s0[i as int]);
            assert(-200_003_200_000 <= a.forces.cohesion.x * cm <= 200_003_200_000
                && -200_003_200_000 <= a.forces.cohesion.y * cm <= 200_003_200_000
                && -10_000_000 <= a.forces.separation.x * sm <= 10_000_000 && -10_000_000
                <= a.forces.separation.y * sm <= 10_000_000 && -50_000_000
                <= a.forces.alignment.x * am <= 50_000_000 && -50_000_000
                <= a.forces.alignment.y * am <= 50_000_000) by (nonlinear_arith)
                requires
                    -2_000_032 <= a.forces.cohesion.x <= 2_000_032,
                    -2_000_032 <= a.forces.cohesion.y <= 2_000_032,
                    -100 <= a.forces.separation.x <= 100,
                    -100 <= a.forces.separation.y <= 100,
                    -500 <= a.forces.alignment.x <= 500,
                    -500 <= a.forces.alignment.y <= 500,
                    -100_000 <= cm <= 100_000,
                    -100_000 <= sm <= 100_000,
                    -100_000 <= am <= 100_000,
            ;
        }
        let cx = div_trunc(a.forces.cohesion.x * cm, SCALE);
        let cy = div_trunc(a.forces.cohesion.y * cm, SCALE);
        let sx = div_trunc(a.forces.separation.x * sm, SCALE);
        let sy = div_trunc(a.forces.separation.y * sm, SCALE);
        let lx = div_trunc(a.forces.alignment.x * am, SCALE);
        let ly = div_trunc(a.forces.alignment.y * am, SCALE);
        proof {
            lemma_tdiv_bounded(a.forces.cohesion.x * cm, SCALE as int, 200_003_200);
            lemma_tdiv_bounded(a.forces.cohesion.y * cm, SCALE as int, 200_003_200);
            lemma_tdiv_bounded(a.forces.separation.x * sm, SCALE as int, 10_000);
            lemma_tdiv_bounded(a.forces.separation.y * sm, SCALE as int, 10_000);
            lemma_tdiv_bounded(a.forces.alignment.x * am, SCALE as int, 50_000);
            lemma_tdiv_bounded(a.forces.alignment.y * am, SCALE as int, 50_000);
        }
        a.acc = V2 { x: a.acc.x + cx, y: a.acc.y + cy };
        a.acc = V2 { x: a.acc.x + sx, y: a.acc.y + sy };
        a.acc = V2 { x: a.acc.x + lx, y: a.acc.y + ly };
        agents[i] = a;
        proof {
            assert(views(agents@)[i as int] == blend_stage(
                s0,
                cm as int,
                sm as int,
                am as int,
            )[i as int]);
        }
        i += 1;
    }
    proof {
        assert(views(agents@) =~= blend_stage(s0, cm as int, sm as int, am as int));
    }
}

/// Integrate every agent: acceleration joins the velocity, the speed cap
/// applies, and the clamped velocity moves the position for `delta_milli`
/// thousandths of a second.
#[verifier::loop_isolation(false)]
pub fn move_boids(agents: &mut Vec<Agent>, delta_milli: i64)
    requires
        0 <= delta_milli <= DT_LIMIT,
        forall|k: int|
            0 <= k < old(agents)@.len() ==> {
                let a = #[trigger] views(old(agents)@)[k];
                g_len_sq(a.vel) <= MAX_SPEED * MAX_SPEED && -ACC_LIMIT <= a.acc.x <= ACC_LIMIT
                    && -ACC_LIMIT <= a.acc.y <= ACC_LIMIT && -POS_LIMIT <= a.pos.x <= POS_LIMIT
                    && -POS_LIMIT <= a.pos.y <= POS_LIMIT
            },
    ensures
        views(final(agents)@) == move_stage(views(old(agents)@), delta_milli as int),
        forall|k: int|
            0 <= k < final(agents)@.len() ==> {
                let a = #[trigger] views(final(agents)@)[k];
                g_len_sq(a.vel) <= MAX_SPEED * MAX_SPEED && -(POS_LIMIT + STEP_LIMIT) <= a.pos.x
                    <= POS_LIMIT + STEP_LIMIT && -(POS_LIMIT + STEP_LIMIT) <= a.pos.y <= POS_LIMIT
                    + STEP_LIMIT
            },
{
    let ghost s0 = views(agents@);
    proof {
        assert(s0 == views(old(agents)@));
        assert(forall|k: int| 0 <= k < s0.len() ==> {
            let a = #[trigger] s0[k];
            g_len_sq(a.vel) <= MAX_SPEED * MAX_SPEED && -ACC_LIMIT <= a.acc.x <= ACC_LIMIT
                && -ACC_LIMIT <= a.acc.y <= ACC_LIMIT && -POS_LIMIT <= a.pos.x <= POS_LIMIT
                && -POS_LIMIT <= a.pos.y <= POS_LIMIT
        });
    }
    let n = agents.len();
    let mut i: usize = 0;
    while i < n
        invariant
            agents@.len() == n,
            forall|k: int| i <= k < n ==> views(agents@)[k] == s0[k],
            forall|k: int|
                0 <= k < i ==> views(agents@)[k] == move_stage(s0, delta_milli as int)[k],
            forall|k: int|
                0 <= k < i ==> {
                    let a = #[trigger] move_stage(s0, delta_milli as int)[k];
                    g_len_sq(a.vel) <= MAX_SPEED * MAX_SPEED && -(POS_LIMIT + STEP_LIMIT)
                        <= a.pos.x <= POS_LIMIT + STEP_LIMIT && -(POS_LIMIT + STEP_LIMIT)
                        <= a.pos.y <= POS_LIMIT + STEP_LIMIT
                },
        decreases n - i,
    {
        let mut a = agents[i];
        proof {
            assert(views(agents@)[i as int] == s0[i as int]);
            lemma_len_sq_comps(a.vel@, MAX_SPEED as int);
        }
        let v1 = a.vel.plus(a.acc);
        let v2 = v1.clamp_len(MAX_SPEED);
        proof {
            lemma_len_sq_comps(v2@, MAX_SPEED as int);
            assert(-5_000_000 <= v2.x * delta_milli <= 5_000_000 && -5_000_000 <= v2.y
                * delta_milli <= 5_000_000) by (nonlinear_arith)
                requires
                    -500 <= v2.x <= 500,
                    -500 <= v2.y <= 500,
                    0 <= delta_milli <= 10_000,
            ;
        }
        let dx = div_trunc(v2.x * delta_milli, SCALE);
        let dy = div_trunc(v2.y * delta_milli, SCALE);
        proof {
            lemma_tdiv_bounded(v2.x * delta_milli, SCALE as int, STEP_LIMIT as int);
            lemma_tdiv_bounded(v2.y * delta_milli, SCALE as int, STEP_LIMIT as int);
        }
        a.vel = v2;
        a.pos = a.pos.plus(V2 { x: dx, y: dy });
        agents[i] = a;
        proof {
            assert(views(agents@)[i as int] == move_stage(s0, delta_milli as int)[i as int]);
        }
        i += 1;
    }
    proof {
        assert(views(agents@) =~= move_stage(s0, delta_milli as int));
    }
}

/// Turn every agent along its velocity: the heading its visual
/// representation is rotated to.
#[verifier::loop_isolation(false)]
pub fn rotate(agents: &mut Vec<Agent>)
    ensures
        views(final(agents)@) == rotate_stage(views(old(agents)@)),
{
    let ghost s0 = views(agents@);
    let n = agents.len();
    let mut i: usize = 0;
    while i < n
        invariant
            agents@.len() == n,
            forall|k: int| i <= k < n ==> views(agents@)[k] == s0[k],
            forall|k: int| 0 <= k < i ==> views(agents@)[k] == rotate_stage(s0)[k],
        decreases n - i,
    {
        let mut a = agents[i];
        a.heading = a.vel;
        agents[i] = a;
        i += 1;
    }
    proof {
        assert(views(agents@) =~= rotate_stage(s0));
    }
}

/// Wrap every agent that has drifted more than `WRAP_MARGIN` beyond the
/// viewport to the opposite edge, each axis independently.
#[verifier::loop_isolation(false)]
pub fn screen_wrap(agents: &mut Vec<Agent>, viewport: Viewport)
    requires
        viewport.wf(),
        forall|k: int|
            0 <= k < old(agents)@.len() ==> {
                let a = #[trigger] views(old(agents)@)[k];
                -(POS_LIMIT + STEP_LIMIT) <= a.pos.x <= POS_LIMIT + STEP_LIMIT && -(POS_LIMIT
                    + STEP_LIMIT) <= a.pos.y <= POS_LIMIT + STEP_LIMIT
            },
    ensures
        views(final(agents)@) == wrap_stage(views(old(agents)@), viewport),
        forall|k: int|
            0 <= k < final(agents)@.len() ==> {
                let a = #[trigger] views(final(agents)@)[k];
                viewport.min_x - WRAP_MARGIN <= a.pos.x <= viewport.max_x + WRAP_MARGIN
                    && viewport.min_y - WRAP_MARGIN <= a.pos.y <= viewport.max_y + WRAP_MARGIN
            },
{
    let ghost s0 = views(agents@);
    proof {
        assert(s0 == views(old(agents)@));
        assert(forall|k: int| 0 <= k < s0.len() ==> {
            let a = #[trigger] s0[k];
            -(POS_LIMIT + STEP_LIMIT) <= a.pos.x <= POS_LIMIT + STEP_LIMIT && -(POS_LIMIT
                + STEP_LIMIT) <= a.pos.y <= POS_LIMIT + STEP_LIMIT
        });
    }
    let n = agents.len();
    let mut i: usize = 0;
    while i < n
        invariant
            agents@.len() == n,
            forall|k: int| i <= k < n ==> views(agents@)[k] == s0[k],
            forall|k: int| 0 <= k < i ==> views(agents@)[k] == wrap_stage(s0, viewport)[k],
            forall|k: int|
                0 <= k < i ==> {
                    let a = #[trigger] wrap_stage(s0, viewport)[k];
                    viewport.min_x - WRAP_MARGIN <= a.pos.x <= viewport.max_x + WRAP_MARGIN
                        && viewport.min_y - WRAP_MARGIN <= a.pos.y <= viewport.max_y + WRAP_MARGIN
                },
        decreases n - i,
    {
        let mut a = agents[i];
        if a.pos.x < viewport.min_x - WRAP_MARGIN {
            a.pos.x = viewport.max_x + WRAP_MARGIN;
        } else if a.pos.x > viewport.max_x + WRAP_MARGIN {
            a.pos.x = viewport.min_x - WRAP_MARGIN;
        }
        if a.pos.y < viewport.min_y - WRAP_MARGIN {
            a.pos.y = viewport.max_y + WRAP_MARGIN;
        } else if a.pos.y > viewport.max_y + WRAP_MARGIN {
            a.pos.y = viewport.min_y - WRAP_MARGIN;
        }
        agents[i] = a;
        proof {
            assert(views(agents@)[i as int] == wrap_stage(s0, viewport)[i as int]);
        }
        i += 1;
    }
    proof {
        assert(views(agents@) =~= wrap_stage(s0, viewport));
    }
}

} // verus!
