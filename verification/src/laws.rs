//! The laws the simulation obeys, each proved once and for all over the
//! mathematical model of a tick.

use vstd::prelude::*;
use crate::agent::AgentG;
use crate::forces::alignment_force;
use crate::forces::alignment_stage;
use crate::forces::cohesion_force;
use crate::forces::away_sum_near;
use crate::forces::cohesion_stage;
use crate::forces::count_near;
use crate::forces::g_near;
use crate::forces::pos_sum_near;
use crate::forces::vel_sum_near;
use crate::forces::reset_forces_stage;
use crate::forces::separation_force;
use crate::forces::separation_stage;
use crate::motion::blend_agent;
use crate::motion::blend_stage;
use crate::motion::move_stage;
use crate::motion::reset_acc_stage;
use crate::motion::wrap1;
use crate::num::lemma_tdiv_exact_scale;
use crate::num::lemma_tdiv_times_divisor;
use crate::num::tdiv;
use crate::params::SimParams;
use crate::sim::tick_spec;
use crate::vec2::g_add;
use crate::vec2::g_div;
use crate::vec2::g_dist_sq;
use crate::vec2::g_sub;
use crate::vec2::g_len_sq;
use crate::vec2::g_zero;
use crate::vec2::lemma_clamped_within;
use crate::vec2::GV2;
use crate::ALIGNMENT_RADIUS;
use crate::COHESION_RADIUS;
use crate::MAX_SPEED;
use crate::SCALE;
use crate::SEPARATION_RADIUS;

verus! {

/// Dividing by one changes nothing.
proof fn lemma_tdiv_by_one(a: int)
    ensures
        tdiv(a, 1) == a,
{
    lemma_tdiv_exact_scale(a, 1, 1);
}


/// A scan of a two-agent flock, seen from `a`: the agent always finds
/// itself at distance zero, and finds `b` exactly when `b` is in range.
proof fn lemma_pair_scan(a: AgentG, b: AgentG, r: int)
    requires
        0 < r,
    ensures
        g_near(a.pos, a.pos, r),
        count_near(seq![a, b], a.pos, r) == if g_near(b.pos, a.pos, r) {
            2int
        } else {
            1int
        },
        pos_sum_near(seq![a, b], a.pos, r) == if g_near(b.pos, a.pos, r) {
            g_add(g_add(g_zero(), a.pos), b.pos)
        } else {
            g_add(g_zero(), a.pos)
        },
        away_sum_near(seq![a, b], a.pos, r) == if g_near(b.pos, a.pos, r) {
            g_add(g_add(g_zero(), g_sub(a.pos, a.pos)), g_sub(a.pos, b.pos))
        } else {
            g_add(g_zero(), g_sub(a.pos, a.pos))
        },
        vel_sum_near(seq![a, b], a.pos, r) == if g_near(b.pos, a.pos, r) {
            g_add(g_add(g_zero(), a.vel), b.vel)
        } else {
            g_add(g_zero(), a.vel)
        },
{
    let e = Seq::<AgentG>::empty();
    let s1 = seq![a];
    let s = seq![a, b];
    let p = a.pos;
    assert(s1.drop_last() =~= e);
    assert(s.drop_last() =~= s1);
    assert(g_dist_sq(p, p) == 0);
    assert(0 < r * r) by (nonlinear_arith)
        requires
            0 < r,
    ;
    assert(count_near(e, p, r) == 0);
    assert(pos_sum_near(e, p, r) == g_zero());
    assert(away_sum_near(e, p, r) == g_zero());
    assert(vel_sum_near(e, p, r) == g_zero());
    assert(s1.last() == a && s.last() == b);
    assert(count_near(s1, p, r) == 1);
    assert(pos_sum_near(s1, p, r) == g_add(g_zero(), a.pos));
    assert(away_sum_near(s1, p, r) == g_add(g_zero(), g_sub(a.pos, a.pos)));
    assert(vel_sum_near(s1, p, r) == g_add(g_zero(), a.vel));
}

/// A scan of a lone agent: it always finds exactly itself.
proof fn lemma_lone_scan(a: AgentG, r: int)
    requires
        0 < r,
    ensures
        count_near(seq![a], a.pos, r) == 1,
        pos_sum_near(seq![a], a.pos, r) == g_add(g_zero(), a.pos),
        away_sum_near(seq![a], a.pos, r) == g_add(g_zero(), g_sub(a.pos, a.pos)),
        vel_sum_near(seq![a], a.pos, r) == g_add(g_zero(), a.vel),
{
    let e = Seq::<AgentG>::empty();
    let s1 = seq![a];
    let p = a.pos;
    assert(s1.drop_last() =~= e);
    assert(g_dist_sq(p, p) == 0);
    assert(0 < r * r) by (nonlinear_arith)
        requires
            0 < r,
    ;
    assert(count_near(e, p, r) == 0);
    assert(pos_sum_near(e, p, r) == g_zero());
    assert(away_sum_near(e, p, r) == g_zero());
    assert(vel_sum_near(e, p, r) == g_zero());
    assert(s1.last() == a);
}

/// Speed bound: after a tick, every agent's velocity has squared length at
/// most `MAX_SPEED * MAX_SPEED`, whatever the snapshot and the parameters.
pub proof fn lemma_speed_bound(s: Seq<AgentG>, p: SimParams, k: int)
    requires
        0 <= k < s.len(),
    ensures
        g_len_sq(tick_spec(s, p)[k].vel) <= MAX_SPEED * MAX_SPEED,
{
    let s5 = alignment_stage(
        separation_stage(cohesion_stage(reset_forces_stage(reset_acc_stage(s)))),
    );
    let s6 = blend_stage(
        s5,
        p.cohesion_mul_milli as int,
        p.separation_mul_milli as int,
        p.alignment_mul_milli as int,
    );
    let s7 = move_stage(s6, p.delta_milli as int);
    assert(tick_spec(s, p)[k].vel == s7[k].vel);
    lemma_clamped_within(g_add(s6[k].vel, s6[k].acc), MAX_SPEED as int);
}

/// Tick determinism: the outcome of a tick is a function of the snapshot
/// and the parameters alone — equal inputs give equal populations.
pub proof fn lemma_tick_deterministic(
    s1: Seq<AgentG>,
    s2: Seq<AgentG>,
    p1: SimParams,
    p2: SimParams,
)
    requires
        s1 == s2,
        p1 == p2,
    ensures
        tick_spec(s1, p1) == tick_spec(s2, p2),
{
}

/// Neighbour radii, on a pair of agents seen from `a`: the cohesion average
/// acts exactly below `COHESION_RADIUS` and the separation average exactly
/// below `SEPARATION_RADIUS`, boundary exclusive, provided the pair is at
/// least two units apart on some axis (closer than that, the halved average
/// rounds to zero). In range, the separation steering is half the vector
/// from the other agent, and the cohesion steering is half the vector
/// toward it when both coordinate gaps are even (odd gaps round toward
/// zero). The alignment average is `a`'s own velocity when the other agent
/// is out of range — the scan counts the agent itself — and the halved
/// velocity sum when it is in range.
pub proof fn lemma_neighbor_radius(a: AgentG, b: AgentG)
    ensures
        g_dist_sq(b.pos, a.pos) >= COHESION_RADIUS * COHESION_RADIUS ==> cohesion_force(
            seq![a, b],
            a.pos,
        ) == g_zero(),
        g_dist_sq(b.pos, a.pos) < COHESION_RADIUS * COHESION_RADIUS && (b.pos.x - a.pos.x >= 2
            || b.pos.x - a.pos.x <= -2 || b.pos.y - a.pos.y >= 2 || b.pos.y - a.pos.y <= -2)
            ==> cohesion_force(seq![a, b], a.pos) != g_zero(),
        g_dist_sq(b.pos, a.pos) >= SEPARATION_RADIUS * SEPARATION_RADIUS ==> separation_force(
            seq![a, b],
            a.pos,
        ) == g_zero(),
        g_dist_sq(b.pos, a.pos) < SEPARATION_RADIUS * SEPARATION_RADIUS && (b.pos.x - a.pos.x >= 2
            || b.pos.x - a.pos.x <= -2 || b.pos.y - a.pos.y >= 2 || b.pos.y - a.pos.y <= -2)
            ==> separation_force(seq![a, b], a.pos) != g_zero(),
        g_dist_sq(b.pos, a.pos) < COHESION_RADIUS * COHESION_RADIUS && (b.pos.x - a.pos.x) % 2
            == 0 && (b.pos.y - a.pos.y) % 2 == 0 ==> cohesion_force(seq![a, b], a.pos) == g_div(
            g_sub(b.pos, a.pos),
            2,
        ),
        g_dist_sq(b.pos, a.pos) < SEPARATION_RADIUS * SEPARATION_RADIUS ==> separation_force(
            seq![a, b],
            a.pos,
        ) == g_div(g_sub(a.pos, b.pos), 2),
        g_dist_sq(b.pos, a.pos) >= ALIGNMENT_RADIUS * ALIGNMENT_RADIUS ==> alignment_force(
            seq![a, b],
            a.pos,
        ) == a.vel,
        g_dist_sq(b.pos, a.pos) < ALIGNMENT_RADIUS * ALIGNMENT_RADIUS ==> alignment_force(
            seq![a, b],
            a.pos,
        ) == g_div(g_add(a.vel, b.vel), 2),
{
    let s = seq![a, b];
    let p = a.pos;
    lemma_pair_scan(a, b, COHESION_RADIUS as int);
    lemma_pair_scan(a, b, SEPARATION_RADIUS as int);
    lemma_pair_scan(a, b, ALIGNMENT_RADIUS as int);
    lemma_tdiv_by_one(p.x);
    lemma_tdiv_by_one(p.y);
    lemma_tdiv_by_one(a.vel.x);
    lemma_tdiv_by_one(a.vel.y);
    lemma_tdiv_by_one(0);
    let dx = b.pos.x - p.x;
    let dy = b.pos.y - p.y;
    if g_dist_sq(b.pos, p) < COHESION_RADIUS * COHESION_RADIUS {
        let tx = tdiv(p.x + b.pos.x, 2);
        let ty = tdiv(p.y + b.pos.y, 2);
        lemma_tdiv_times_divisor(p.x + b.pos.x, 2);
        lemma_tdiv_times_divisor(p.y + b.pos.y, 2);
        assert(cohesion_force(s, p) == GV2 { x: tx - p.x, y: ty - p.y });
        if dx % 2 == 0 && dy % 2 == 0 {
            lemma_tdiv_exact_scale(p.x + b.pos.x, 1, 2);
            lemma_tdiv_exact_scale(dx, 1, 2);
            lemma_tdiv_exact_scale(p.y + b.pos.y, 1, 2);
            lemma_tdiv_exact_scale(dy, 1, 2);
            assert(cohesion_force(s, p) == g_div(g_sub(b.pos, a.pos), 2));
        }
        if dx >= 2 || dx <= -2 || dy >= 2 || dy <= -2 {
            if dx >= 2 {
                assert(tx - p.x >= 1);
            } else if dx <= -2 {
                assert(tx - p.x <= -1);
            } else if dy >= 2 {
                assert(ty - p.y >= 1);
            } else {
                assert(ty - p.y <= -1);
            }
            assert(cohesion_force(s, p) != g_zero());
        }
    }
    if g_dist_sq(b.pos, p) < SEPARATION_RADIUS * SEPARATION_RADIUS {
        let tx = tdiv((p.x - p.x) + (p.x - b.pos.x), 2);
        let ty = tdiv((p.y - p.y) + (p.y - b.pos.y), 2);
        lemma_tdiv_times_divisor((p.x - p.x) + (p.x - b.pos.x), 2);
        lemma_tdiv_times_divisor((p.y - p.y) + (p.y - b.pos.y), 2);
        assert(separation_force(s, p) == GV2 { x: tx, y: ty });
        assert(separation_force(s, p) == g_div(g_sub(a.pos, b.pos), 2));
        if dx >= 2 || dx <= -2 || dy >= 2 || dy <= -2 {
            if dx >= 2 {
                assert(tx <= -1);
            } else if dx <= -2 {
                assert(tx >= 1);
            } else if dy >= 2 {
                assert(ty <= -1);
            } else {
                assert(ty >= 1);
            }
            assert(separation_force(s, p) != g_zero());
        }
    }
}

/// A lone agent's steering: with nobody else in the flock, the cohesion and
/// separation averages cancel to zero, and the alignment average is the
/// agent's own velocity (the scan counts the agent itself).
pub proof fn lemma_isolated_forces(a: AgentG)
    ensures
        cohesion_force(seq![a], a.pos) == g_zero(),
        separation_force(seq![a], a.pos) == g_zero(),
        alignment_force(seq![a], a.pos) == a.vel,
{
    lemma_lone_scan(a, COHESION_RADIUS as int);
    lemma_lone_scan(a, SEPARATION_RADIUS as int);
    lemma_lone_scan(a, ALIGNMENT_RADIUS as int);
    lemma_tdiv_by_one(a.pos.x);
    lemma_tdiv_by_one(a.pos.y);
    lemma_tdiv_by_one(a.vel.x);
    lemma_tdiv_by_one(a.vel.y);
    lemma_tdiv_by_one(0);
}

/// A lone agent at rest is a fixed point of a tick but for the wrap: its
/// acceleration blends to zero whatever the multipliers, its velocity stays
/// zero, and its position only wraps at the viewport margin.
pub proof fn lemma_isolated_at_rest(a: AgentG, p: SimParams)
    requires
        a.vel == g_zero(),
    ensures
        tick_spec(seq![a], p)[0].acc == g_zero(),
        tick_spec(seq![a], p)[0].vel == g_zero(),
        tick_spec(seq![a], p)[0].pos.x == wrap1(
            a.pos.x,
            p.viewport.min_x as int,
            p.viewport.max_x as int,
        ),
        tick_spec(seq![a], p)[0].pos.y == wrap1(
            a.pos.y,
            p.viewport.min_y as int,
            p.viewport.max_y as int,
        ),
{
    let s2 = reset_forces_stage(reset_acc_stage(seq![a]));
    let s3 = cohesion_stage(s2);
    let s4 = separation_stage(s3);
    assert(s2 =~= seq![s2[0]]);
    assert(s3 =~= seq![s3[0]]);
    assert(s4 =~= seq![s4[0]]);
    lemma_isolated_forces(s2[0]);
    lemma_isolated_forces(s3[0]);
    lemma_isolated_forces(s4[0]);
    let s5 = alignment_stage(s4);
    assert(s5[0].forces.cohesion == g_zero());
    assert(s5[0].forces.separation == g_zero());
    assert(s5[0].forces.alignment == g_zero());
    let s6 = blend_stage(
        s5,
        p.cohesion_mul_milli as int,
        p.separation_mul_milli as int,
        p.alignment_mul_milli as int,
    );
    lemma_tdiv_by_one(0);
    assert(tdiv(0, SCALE as int) == 0) by {
        lemma_tdiv_exact_scale(0, 0, SCALE as int);
    }
    assert(s6[0].acc == g_zero());
    let s7 = move_stage(s6, p.delta_milli as int);
    assert(g_len_sq(g_add(s6[0].vel, s6[0].acc)) == 0);
    assert(s7[0].vel == g_zero());
    assert(s7[0].pos == a.pos);
}

/// Multiplier linearity: scaling the cohesion multiplier by an integer `k`
/// scales the cohesion contribution to the blended acceleration by `k`,
/// holding the other multipliers and the force snapshot fixed — provided the
/// unscaled contribution divides evenly by `SCALE`.
pub proof fn lemma_multiplier_linearity(a: AgentG, cm: int, sm: int, am: int, k: int)
    requires
        (a.forces.cohesion.x * cm) % (SCALE as int) == 0,
        (a.forces.cohesion.y * cm) % (SCALE as int) == 0,
    ensures
        blend_agent(a, k * cm, sm, am).acc.x == blend_agent(a, cm, sm, am).acc.x + (k - 1) * tdiv(
            a.forces.cohesion.x * cm,
            SCALE as int,
        ),
        blend_agent(a, k * cm, sm, am).acc.y == blend_agent(a, cm, sm, am).acc.y + (k - 1) * tdiv(
            a.forces.cohesion.y * cm,
            SCALE as int,
        ),
{
    let fx = a.forces.cohesion.x;
    let fy = a.forces.cohesion.y;
    assert(fx * (k * cm) == k * (fx * cm) && fy * (k * cm) == k * (fy * cm)) by (nonlinear_arith);
    lemma_tdiv_exact_scale(fx * cm, k, SCALE as int);
    lemma_tdiv_exact_scale(fy * cm, k, SCALE as int);
    let tx = tdiv(fx * cm, SCALE as int);
    let ty = tdiv(fy * cm, SCALE as int);
    assert(k * tx == tx + (k - 1) * tx && k * ty == ty + (k - 1) * ty) by (nonlinear_arith);
}

} // verus!
