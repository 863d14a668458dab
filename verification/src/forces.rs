//! The three steering passes. Each scans a snapshot of the whole population
//! and accumulates, for every agent, the average contribution of the agents
//! within its rule's radius — the agent itself included, at distance zero.

use vstd::prelude::*;
use crate::agent::snapshot_ok;
use crate::agent::views;
use crate::agent::Agent;
use crate::agent::AgentG;
use crate::agent::forces_zero;
use crate::agent::ForcesG;
use crate::num::div_trunc;
use crate::num::lemma_tdiv_bounded;
use crate::vec2::g_add;
use crate::vec2::g_dist_sq;
use crate::vec2::g_div;
use crate::vec2::g_sub;
use crate::vec2::g_zero;
use crate::vec2::GV2;
use crate::vec2::V2;
use crate::ALIGNMENT_RADIUS;
use crate::COHESION_RADIUS;
use crate::MAX_AGENTS;
use crate::MAX_SPEED;
use crate::POS_LIMIT;
use crate::SEPARATION_RADIUS;

verus! {

/// `q` lies within radius `r` of `p` (boundary exclusive).
pub open spec fn g_near(q: GV2, p: GV2, r: int) -> bool {
    g_dist_sq(q, p) < r * r
}

/// How many of the agents in `s` lie within radius `r` of `p`.
pub open spec fn count_near(s: Seq<AgentG>, p: GV2, r: int) -> int
    decreases s.len(),
{
    if s.len() == 0 {
        0
    } else {
        count_near(s.drop_last(), p, r) + if g_near(s.last().pos, p, r) {
            1int
        } else {
            0int
        }
    }
}

/// Sum of the positions of the agents in `s` within radius `r` of `p`.
pub open spec fn pos_sum_near(s: Seq<AgentG>, p: GV2, r: int) -> GV2
    decreases s.len(),
{
    if s.len() == 0 {
        g_zero()
    } else {
        let rest = pos_sum_near(s.drop_last(), p, r);
        if g_near(s.last().pos, p, r) {
            g_add(rest, s.last().pos)
        } else {
            rest
        }
    }
}

/// Sum of `p - q` over the positions `q` of the agents in `s` within radius
/// `r` of `p`.
pub open spec fn away_sum_near(s: Seq<AgentG>, p: GV2, r: int) -> GV2
    decreases s.len(),
{
    if s.len() == 0 {
        g_zero()
    } else {
        let rest = away_sum_near(s.drop_last(), p, r);
        if g_near(s.last().pos, p, r) {
            g_add(rest, g_sub(p, s.last().pos))
        } else {
            rest
        }
    }
}

/// Sum of the velocities of the agents in `s` within radius `r` of `p`.
pub open spec fn vel_sum_near(s: Seq<AgentG>, p: GV2, r: int) -> GV2
    decreases s.len(),
{
    if s.len() == 0 {
        g_zero()
    } else {
        let rest = vel_sum_near(s.drop_last(), p, r);
        if g_near(s.last().pos, p, r) {
            g_add(rest, s.last().vel)
        } else {
            rest
        }
    }
}

/// The cohesion steering vector for an agent at `p`: the average position of
/// the agents within `COHESION_RADIUS`, minus `p`; zero if none are near.
pub open spec fn cohesion_force(s: Seq<AgentG>, p: GV2) -> GV2 {
    let c = count_near(s, p, COHESION_RADIUS as int);
    if c > 0 {
        g_sub(g_div(pos_sum_near(s, p, COHESION_RADIUS as int), c), p)
    } else {
        g_zero()
    }
}

/// The separation steering vector for an agent at `p`: the average of
/// `p - q` over the agents at `q` within `SEPARATION_RADIUS`; zero if none
/// are near.
pub open spec fn separation_force(s: Seq<AgentG>, p: GV2) -> GV2 {
    let c = count_near(s, p, SEPARATION_RADIUS as int);
    if c > 0 {
        g_div(away_sum_near(s, p, SEPARATION_RADIUS as int), c)
    } else {
        g_zero()
    }
}

/// The alignment steering vector for an agent at `p`: the average velocity of
/// the agents within `ALIGNMENT_RADIUS`; zero if none are near.
pub open spec fn alignment_force(s: Seq<AgentG>, p: GV2) -> GV2 {
    let c = count_near(s, p, ALIGNMENT_RADIUS as int);
    if c > 0 {
        g_div(vel_sum_near(s, p, ALIGNMENT_RADIUS as int), c)
    } else {
        g_zero()
    }
}

/// `a` with its cohesion accumulator replaced.
pub open spec fn with_cohesion(a: AgentG, v: GV2) -> AgentG {
    AgentG {
        pos: a.pos,
        vel: a.vel,
        acc: a.acc,
        heading: a.heading,
        forces: ForcesG {
            cohesion: v,
            separation: a.forces.separation,
            alignment: a.forces.alignment,
        },
    }
}

/// `a` with its separation accumulator replaced.
pub open spec fn with_separation(a: AgentG, v: GV2) -> AgentG {
    AgentG {
        pos: a.pos,
        vel: a.vel,
        acc: a.acc,
        heading: a.heading,
        forces: ForcesG {
            cohesion: a.forces.cohesion,
            separation: v,
            alignment: a.forces.alignment,
        },
    }
}

/// `a` with its alignment accumulator replaced.
pub open spec fn with_alignment(a: AgentG, v: GV2) -> AgentG {
    AgentG {
        pos: a.pos,
        vel: a.vel,
        acc: a.acc,
        heading: a.heading,
        forces: ForcesG {
            cohesion: a.forces.cohesion,
            separation: a.forces.separation,
            alignment: v,
        },
    }
}

/// The cohesion pass over a population snapshot: every agent's cohesion
/// accumulator gains its cohesion steering vector.
pub open spec fn cohesion_stage(s: Seq<AgentG>) -> Seq<AgentG> {
    Seq::new(
        s.len(),
        |i: int| with_cohesion(s[i], g_add(s[i].forces.cohesion, cohesion_force(s, s[i].pos))),
    )
}

/// The separation pass over a population snapshot.
pub open spec fn separation_stage(s: Seq<AgentG>) -> Seq<AgentG> {
    Seq::new(
        s.len(),
        |i: int| with_separation(
            s[i],
            g_add(s[i].forces.separation, separation_force(s, s[i].pos)),
        ),
    )
}

/// The alignment pass over a population snapshot.
pub open spec fn alignment_stage(s: Seq<AgentG>) -> Seq<AgentG> {
    Seq::new(
        s.len(),
        |i: int| with_alignment(s[i], g_add(s[i].forces.alignment, alignment_force(s, s[i].pos))),
    )
}

/// The cohesion pass: for every agent, average the positions of the agents
/// within `COHESION_RADIUS` (itself included) and steer toward that average.
#[verifier::loop_isolation(false)]
pub fn cohesion(agents: &mut Vec<Agent>)
    requires
        old(agents)@.len() <= MAX_AGENTS,
        forall|k: int|
            0 <= k < old(agents)@.len() ==> snapshot_ok(#[trigger] views(old(agents)@)[k]),
        forall|k: int|
            0 <= k < old(agents)@.len() ==> (#[trigger] views(old(agents)@)[k]).forces.cohesion
                == g_zero(),
    ensures
        views(final(agents)@) == cohesion_stage(views(old(agents)@)),
        forall|k: int|
            0 <= k < final(agents)@.len() ==> {
                let c = (#[trigger] views(final(agents)@)[k]).forces.cohesion;
                -2 * POS_LIMIT <= c.x <= 2 * POS_LIMIT && -2 * POS_LIMIT <= c.y <= 2 * POS_LIMIT
            },
{
    let ghost s0 = views(agents@);
    proof {
        assert(s0 == views(old(agents)@));
        assert(forall|k: int| 0 <= k < s0.len() ==> snapshot_ok(#[trigger] s0[k]));
        assert(forall|k: int| 0 <= k < s0.len() ==> (#[trigger] s0[k]).forces.cohesion == g_zero());
    }
    let n = agents.len();
    let mut positions: Vec<V2> = Vec::new();
    let mut j0: usize = 0;
    while j0 < n
        invariant
            j0 <= n,
            positions@.len() == j0,
            forall|k: int| 0 <= k < j0 ==> (#[trigger] positions@[k])@ == s0[k].pos,
        decreases n - j0,
    {
        let p = agents[j0].pos;
        positions.push(p);
        j0 += 1;
    }
    let mut i: usize = 0;
    while i < n
        invariant
            agents@.len() == n,
            forall|k: int| i <= k < n ==> views(agents@)[k] == s0[k],
            forall|k: int| 0 <= k < i ==> views(agents@)[k] == cohesion_stage(s0)[k],
            forall|k: int|
                0 <= k < i ==> {
                    let c = (#[trigger] cohesion_stage(s0)[k]).forces.cohesion;
                    -2 * POS_LIMIT <= c.x <= 2 * POS_LIMIT && -2 * POS_LIMIT <= c.y <= 2
                        * POS_LIMIT
                },
        decreases n - i,
    {
        let pi = agents[i].pos;
        proof {
            assert(views(agents@)[i as int] == s0[i as int]);
        }
        let mut sum_x: i64 = 0;
        let mut sum_y: i64 = 0;
        let mut cnt: i64 = 0;
        let mut j: usize = 0;
        while j < n
            invariant
                j <= n,
                pi@ == s0[i as int].pos,
                cnt == count_near(s0.take(j as int), pi@, COHESION_RADIUS as int),
                sum_x == pos_sum_near(s0.take(j as int), pi@, COHESION_RADIUS as int).x,
                sum_y == pos_sum_near(s0.take(j as int), pi@, COHESION_RADIUS as int).y,
                0 <= cnt <= j,
                -cnt * POS_LIMIT <= sum_x <= cnt * POS_LIMIT,
                -cnt * POS_LIMIT <= sum_y <= cnt * POS_LIMIT,
            decreases n - j,
        {
            let pj = positions[j];
            let d2 = pj.dist_sq(pi);
            proof {
                assert(s0.take(j as int + 1).drop_last() =~= s0.take(j as int));
                assert(s0.take(j as int + 1).last() == s0[j as int]);
            }
            if d2 < COHESION_RADIUS * COHESION_RADIUS {
                cnt = cnt + 1;
                sum_x = sum_x + pj.x;
                sum_y = sum_y + pj.y;
            }
            j += 1;
        }
        proof {
            assert(s0.take(n as int) =~= s0);
        }
        if cnt > 0 {
            let ax = div_trunc(sum_x, cnt);
            let ay = div_trunc(sum_y, cnt);
            proof {
                lemma_tdiv_bounded(sum_x as int, cnt as int, POS_LIMIT as int);
                lemma_tdiv_bounded(sum_y as int, cnt as int, POS_LIMIT as int);
            }
            let fx = ax - pi.x;
            let fy = ay - pi.y;
            let mut a = agents[i];
            a.forces.cohesion = V2 { x: a.forces.cohesion.x + fx, y: a.forces.cohesion.y + fy };
            agents[i] = a;
            proof {
                assert(views(agents@)[i as int] == cohesion_stage(s0)[i as int]);
            }
        } else {
            proof {
                assert(views(agents@)[i as int] == cohesion_stage(s0)[i as int]);
            }
        }
        i += 1;
    }
    proof {
        assert(views(agents@) =~= cohesion_stage(s0));
    }
}


/// `a` with all three accumulators cleared.
pub open spec fn with_forces_zero(a: AgentG) -> AgentG {
    AgentG {
        pos: a.pos,
        vel: a.vel,
        acc: a.acc,
        heading: a.heading,
        forces: forces_zero(),
    }
}

/// The force-reset step over a population snapshot.
pub open spec fn reset_forces_stage(s: Seq<AgentG>) -> Seq<AgentG> {
    Seq::new(s.len(), |i: int| with_forces_zero(s[i]))
}

/// Clear every agent's three accumulators, before the passes of a new tick.
#[verifier::loop_isolation(false)]
pub fn reset_forces(agents: &mut Vec<Agent>)
    ensures
        views(final(agents)@) == reset_forces_stage(views(old(agents)@)),
{
    let ghost s0 = views(agents@);
    let n = agents.len();
    let mut i: usize = 0;
    while i < n
        invariant
            agents@.len() == n,
            forall|k: int| i <= k < n ==> views(agents@)[k] == s0[k],
            forall|k: int| 0 <= k < i ==> views(agents@)[k] == reset_forces_stage(s0)[k],
        decreases n - i,
    {
        let mut a = agents[i];
        a.forces.reset();
        agents[i] = a;
        i += 1;
    }
    proof {
        assert(views(agents@) =~= reset_forces_stage(s0));
    }
}

/// The separation pass: for every agent, average `own - other` over the
/// positions of the agents within `SEPARATION_RADIUS` (itself included,
/// contributing zero), pushing the agent away from its crowd.
#[verifier::loop_isolation(false)]
pub fn separation(agents: &mut Vec<Agent>)
    requires
        old(agents)@.len() <= MAX_AGENTS,
        forall|k: int|
            0 <= k < old(agents)@.len() ==> snapshot_ok(#[trigger] views(old(agents)@)[k]),
        forall|k: int|
            0 <= k < old(agents)@.len() ==> (#[trigger] views(old(agents)@)[k]).forces.separation
                == g_zero(),
    ensures
        views(final(agents)@) == separation_stage(views(old(agents)@)),
        forall|k: int|
            0 <= k < final(agents)@.len() ==> {
                let c = (#[trigger] views(final(agents)@)[k]).forces.separation;
                -SEPARATION_RADIUS <= c.x <= SEPARATION_RADIUS && -SEPARATION_RADIUS <= c.y
                    <= SEPARATION_RADIUS
            },
{
    let ghost s0 = views(agents@);
    proof {
        assert(s0 == views(old(agents)@));
        assert(forall|k: int| 0 <= k < s0.len() ==> snapshot_ok(#[trigger] s0[k]));
        assert(forall|k: int| 0 <= k < s0.len() ==> (#[trigger] s0[k]).forces.separation == g_zero());
    }
    let n = agents.len();
    let mut positions: Vec<V2> = Vec::new();
    let mut j0: usize = 0;
    while j0 < n
        invariant
            j0 <= n,
            positions@.len() == j0,
            forall|k: int| 0 <= k < j0 ==> (#[trigger] positions@[k])@ == s0[k].pos,
        decreases n - j0,
    {
        let p = agents[j0].pos;
        positions.push(p);
        j0 += 1;
    }
    let mut i: usize = 0;
    while i < n
        invariant
            agents@.len() == n,
            forall|k: int| i <= k < n ==> views(agents@)[k] == s0[k],
            forall|k: int| 0 <= k < i ==> views(agents@)[k] == separation_stage(s0)[k],
            forall|k: int|
                0 <= k < i ==> {
                    let c = (#[trigger] separation_stage(s0)[k]).forces.separation;
                    -SEPARATION_RADIUS <= c.x <= SEPARATION_RADIUS && -SEPARATION_RADIUS <= c.y
                        <= SEPARATION_RADIUS
                },
        decreases n - i,
    {
        let pi = agents[i].pos;
        proof {
            assert(views(agents@)[i as int] == s0[i as int]);
        }
        let mut sum_x: i64 = 0;
        let mut sum_y: i64 = 0;
        let mut cnt: i64 = 0;
        let mut j: usize = 0;
        while j < n
            invariant
                j <= n,
                pi@ == s0[i as int].pos,
                cnt == count_near(s0.take(j as int), pi@, SEPARATION_RADIUS as int),
                sum_x == away_sum_near(s0.take(j as int), pi@, SEPARATION_RADIUS as int).x,
                sum_y == away_sum_near(s0.take(j as int), pi@, SEPARATION_RADIUS as int).y,
                0 <= cnt <= j,
                -cnt * SEPARATION_RADIUS <= sum_x <= cnt * SEPARATION_RADIUS,
                -cnt * SEPARATION_RADIUS <= sum_y <= cnt * SEPARATION_RADIUS,
            decreases n - j,
        {
            let pj = positions[j];
            let d2 = pj.dist_sq(pi);
            proof {
                assert(s0.take(j as int + 1).drop_last() =~= s0.take(j as int));
                assert(s0.take(j as int + 1).last() == s0[j as int]);
            }
            if d2 < SEPARATION_RADIUS * SEPARATION_RADIUS {
                let tx = pi.x - pj.x;
                let ty = pi.y - pj.y;
                proof {
                    assert(-SEPARATION_RADIUS < tx < SEPARATION_RADIUS && -SEPARATION_RADIUS < ty
                        < SEPARATION_RADIUS) by (nonlinear_arith)
                        requires
                            (pj@.x - pi@.x) * (pj@.x - pi@.x) + (pj@.y - pi@.y) * (pj@.y - pi@.y)
                                < SEPARATION_RADIUS * SEPARATION_RADIUS,
                            tx == pi@.x - pj@.x,
                            ty == pi@.y - pj@.y,
                            0 < SEPARATION_RADIUS,
                    ;
                }
                cnt = cnt + 1;
                sum_x = sum_x + tx;
                sum_y = sum_y + ty;
            }
            j += 1;
        }
        proof {
            assert(s0.take(n as int) =~= s0);
        }
        if cnt > 0 {
            let ax = div_trunc(sum_x, cnt);
            let ay = div_trunc(sum_y, cnt);
            proof {
                lemma_tdiv_bounded(sum_x as int, cnt as int, SEPARATION_RADIUS as int);
                lemma_tdiv_bounded(sum_y as int, cnt as int, SEPARATION_RADIUS as int);
            }
            let mut a = agents[i];
            a.forces.separation = V2 {
                x: a.forces.separation.x + ax,
                y: a.forces.separation.y + ay,
            };
            agents[i] = a;
            proof {
                assert(views(agents@)[i as int] == separation_stage(s0)[i as int]);
            }
        } else {
            proof {
                assert(views(agents@)[i as int] == separation_stage(s0)[i as int]);
            }
        }
        i += 1;
    }
    proof {
        assert(views(agents@) =~= separation_stage(s0));
    }
}

/// The alignment pass: for every agent, average the velocities of the agents
/// within `ALIGNMENT_RADIUS` (itself included).
#[verifier::loop_isolation(false)]
pub fn alignment(agents: &mut Vec<Agent>)
    requires
        old(agents)@.len() <= MAX_AGENTS,
        forall|k: int|
            0 <= k < old(agents)@.len() ==> snapshot_ok(#[trigger] views(old(agents)@)[k]),
        forall|k: int|
            0 <= k < old(agents)@.len() ==> (#[trigger] views(old(agents)@)[k]).forces.alignment
                == g_zero(),
    ensures
        views(final(agents)@) == alignment_stage(views(old(agents)@)),
        forall|k: int|
            0 <= k < final(agents)@.len() ==> {
                let c = (#[trigger] views(final(agents)@)[k]).forces.alignment;
                -MAX_SPEED <= c.x <= MAX_SPEED && -MAX_SPEED <= c.y <= MAX_SPEED
            },
{
    let ghost s0 = views(agents@);
    proof {
        assert(s0 == views(old(agents)@));
        assert(forall|k: int| 0 <= k < s0.len() ==> snapshot_ok(#[trigger] s0[k]));
        assert(forall|k: int| 0 <= k < s0.len() ==> (#[trigger] s0[k]).forces.alignment == g_zero());
    }
    let n = agents.len();
    let mut positions: Vec<V2> = Vec::new();
    let mut velocities: Vec<V2> = Vec::new();
    let mut j0: usize = 0;
    while j0 < n
        invariant
            j0 <= n,
            positions@.len() == j0,
            velocities@.len() == j0,
            forall|k: int| 0 <= k < j0 ==> (#[trigger] positions@[k])@ == s0[k].pos,
            forall|k: int| 0 <= k < j0 ==> (#[trigger] velocities@[k])@ == s0[k].vel,
        decreases n - j0,
    {
        let p = agents[j0].pos;
        let v = agents[j0].vel;
        positions.push(p);
        velocities.push(v);
        j0 += 1;
    }
    let mut i: usize = 0;
    while i < n
        invariant
            agents@.len() == n,
            forall|k: int| i <= k < n ==> views(agents@)[k] == s0[k],
            forall|k: int| 0 <= k < i ==> views(agents@)[k] == alignment_stage(s0)[k],
            forall|k: int|
                0 <= k < i ==> {
                    let c = (#[trigger] alignment_stage(s0)[k]).forces.alignment;
                    -MAX_SPEED <= c.x <= MAX_SPEED && -MAX_SPEED <= c.y <= MAX_SPEED
                },
        decreases n - i,
    {
        let pi = agents[i].pos;
        proof {
            assert(views(agents@)[i as int] == s0[i as int]);
        }
        let mut sum_x: i64 = 0;
        let mut sum_y: i64 = 0;
        let mut cnt: i64 = 0;
        let mut j: usize = 0;
        while j < n
            invariant
                j <= n,
                pi@ == s0[i as int].pos,
                cnt == count_near(s0.take(j as int), pi@, ALIGNMENT_RADIUS as int),
                sum_x == vel_sum_near(s0.take(j as int), pi@, ALIGNMENT_RADIUS as int).x,
                sum_y == vel_sum_near(s0.take(j as int), pi@, ALIGNMENT_RADIUS as int).y,
                0 <= cnt <= j,
                -cnt * MAX_SPEED <= sum_x <= cnt * MAX_SPEED,
                -cnt * MAX_SPEED <= sum_y <= cnt * MAX_SPEED,
            decreases n - j,
        {
            let pj = positions[j];
            let vj = velocities[j];
            let d2 = pj.dist_sq(pi);
            proof {
                assert(s0.take(j as int + 1).drop_last() =~= s0.take(j as int));
                assert(s0.take(j as int + 1).last() == s0[j as int]);
            }
            if d2 < ALIGNMENT_RADIUS * ALIGNMENT_RADIUS {
                cnt = cnt + 1;
                sum_x = sum_x + vj.x;
                sum_y = sum_y + vj.y;
            }
            j += 1;
        }
        proof {
            assert(s0.take(n as int) =~= s0);
        }
        if cnt > 0 {
            let ax = div_trunc(sum_x, cnt);
            let ay = div_trunc(sum_y, cnt);
            proof {
                lemma_tdiv_bounded(sum_x as int, cnt as int, MAX_SPEED as int);
                lemma_tdiv_bounded(sum_y as int, cnt as int, MAX_SPEED as int);
            }
            let mut a = agents[i];
            a.forces.alignment = V2 {
                x: a.forces.alignment.x + ax,
                y: a.forces.alignment.y + ay,
            };
            agents[i] = a;
            proof {
                assert(views(agents@)[i as int] == alignment_stage(s0)[i as int]);
            }
        } else {
            proof {
                assert(views(agents@)[i as int] == alignment_stage(s0)[i as int]);
            }
        }
        i += 1;
    }
    proof {
        assert(views(agents@) =~= alignment_stage(s0));
    }
}

} // verus!
