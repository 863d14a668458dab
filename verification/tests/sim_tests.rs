use boids::Agent;
use boids::SimState;
use boids::V2;
use boids::Viewport;

fn world(width: i64, height: i64, agents: Vec<Agent>) -> SimState {
    SimState::from_agents(Viewport::from_size(width, height), agents)
}

fn agent(px: i64, py: i64, vx: i64, vy: i64) -> Agent {
    Agent::new(V2 { x: px, y: py }, V2 { x: vx, y: vy })
}

#[test]
fn two_agent_scenario_one_tick() {
    // Agents at (0,0) and (50,0), both at rest, every multiplier at one,
    // one-second tick. The cohesion and separation averages cancel exactly.
    let mut s = world(1000, 1000, vec![agent(0, 0, 0, 0), agent(50, 0, 0, 0)]);
    assert_eq!(s.params.delta_milli, 0);
    s.tick(1000);
    assert_eq!(s.params.delta_milli, 1000);

    let a = &s.agents[0];
    assert_eq!((a.forces.cohesion.x, a.forces.cohesion.y), (25, 0));
    assert_eq!((a.forces.separation.x, a.forces.separation.y), (-25, 0));
    assert_eq!((a.forces.alignment.x, a.forces.alignment.y), (0, 0));
    assert_eq!((a.acc.x, a.acc.y), (0, 0));
    assert_eq!((a.vel.x, a.vel.y), (0, 0));
    assert_eq!((a.pos.x, a.pos.y), (0, 0));

    let b = &s.agents[1];
    assert_eq!((b.forces.cohesion.x, b.forces.cohesion.y), (-25, 0));
    assert_eq!((b.forces.separation.x, b.forces.separation.y), (25, 0));
    assert_eq!((b.acc.x, b.acc.y), (0, 0));
    assert_eq!((b.pos.x, b.pos.y), (50, 0));
}

#[test]
fn speed_is_clamped_and_heading_follows() {
    // A lone agent moving at 400: the alignment average is its own
    // velocity, so the blend doubles it to 800 and the cap brings it back
    // to exactly 500.
    let mut s = world(2000, 2000, vec![agent(0, 0, 400, 0)]);
    s.tick(1000);

    let a = &s.agents[0];
    assert_eq!((a.forces.alignment.x, a.forces.alignment.y), (400, 0));
    assert_eq!((a.acc.x, a.acc.y), (400, 0));
    assert_eq!((a.vel.x, a.vel.y), (500, 0));
    assert_eq!((a.pos.x, a.pos.y), (500, 0));
    assert_eq!((a.heading.x, a.heading.y), (500, 0));
    assert!(a.vel.x * a.vel.x + a.vel.y * a.vel.y <= 500 * 500);
}

#[test]
fn speed_bound_holds_over_many_ticks() {
    let mut s = world(
        1000,
        1000,
        vec![
            agent(0, 0, 300, 400),
            agent(10, 10, -300, 400),
            agent(-20, 5, 0, -500),
            agent(100, -100, 500, 0),
        ],
    );
    for _ in 0..50 {
        s.tick(16);
        for a in &s.agents {
            assert!(a.vel.x * a.vel.x + a.vel.y * a.vel.y <= 500 * 500);
        }
    }
}

#[test]
fn cohesion_radius_boundary_exclusive() {
    // At distance exactly 200 the pair is out of cohesion range: every
    // average sees only the agent itself and cancels.
    let mut s = world(1000, 1000, vec![agent(0, 0, 0, 0), agent(200, 0, 0, 0)]);
    s.tick(1000);
    let a = &s.agents[0];
    assert_eq!((a.forces.cohesion.x, a.forces.cohesion.y), (0, 0));
    assert_eq!((a.forces.separation.x, a.forces.separation.y), (0, 0));
    assert_eq!((a.acc.x, a.acc.y), (0, 0));

    // At 199 the cohesion average acts; separation still sees nothing.
    let mut t = world(1000, 1000, vec![agent(0, 0, 0, 0), agent(199, 0, 0, 0)]);
    t.tick(1000);
    let b = &t.agents[0];
    assert_eq!((b.forces.cohesion.x, b.forces.cohesion.y), (99, 0));
    assert_eq!((b.forces.separation.x, b.forces.separation.y), (0, 0));
}

#[test]
fn separation_radius_boundary_exclusive() {
    // At distance exactly 100 separation and alignment see only the agent
    // itself; at 99 the separation average pushes away.
    let mut s = world(1000, 1000, vec![agent(0, 0, 0, 0), agent(100, 0, 0, 0)]);
    s.tick(1000);
    let a = &s.agents[0];
    assert_eq!((a.forces.separation.x, a.forces.separation.y), (0, 0));
    assert_eq!((a.forces.cohesion.x, a.forces.cohesion.y), (50, 0));

    let mut t = world(1000, 1000, vec![agent(0, 0, 0, 0), agent(99, 0, 0, 0)]);
    t.tick(1000);
    let b = &t.agents[0];
    assert_eq!((b.forces.separation.x, b.forces.separation.y), (-49, 0));
}

#[test]
fn wrap_on_all_four_sides() {
    // Viewport runs -500..500 on both axes, margin 16. With every
    // multiplier at zero the agents keep their velocity, fly past the
    // margin in one second, and reappear at the opposite edge's margin.
    let mut s = world(
        1000,
        1000,
        vec![
            agent(516, 0, 500, 0),
            agent(-516, 0, -500, 0),
            agent(0, 516, 0, 500),
            agent(0, -516, 0, -500),
            agent(16, 0, 500, 0),
        ],
    );
    s.set_cohesion_multiplier(0);
    s.set_separation_multiplier(0);
    s.set_alignment_multiplier(0);
    s.tick(1000);
    assert_eq!(s.agents[0].pos.x, -516);
    assert_eq!(s.agents[1].pos.x, 516);
    assert_eq!(s.agents[2].pos.y, -516);
    assert_eq!(s.agents[3].pos.y, 516);
    // the last agent ends exactly on the margin and is not wrapped
    assert_eq!(s.agents[4].pos.x, 516);
}

#[test]
fn multiplier_scales_contribution() {
    // Separation and alignment off, cohesion contribution 25: doubling the
    // cohesion multiplier doubles the resulting acceleration.
    let mut s = world(1000, 1000, vec![agent(0, 0, 0, 0), agent(50, 0, 0, 0)]);
    s.set_separation_multiplier(0);
    s.set_alignment_multiplier(0);
    s.tick(1000);
    assert_eq!((s.agents[0].acc.x, s.agents[0].acc.y), (25, 0));
    assert_eq!((s.agents[0].vel.x, s.agents[0].vel.y), (25, 0));

    let mut t = world(1000, 1000, vec![agent(0, 0, 0, 0), agent(50, 0, 0, 0)]);
    t.set_separation_multiplier(0);
    t.set_alignment_multiplier(0);
    t.set_cohesion_multiplier(2000);
    t.tick(1000);
    assert_eq!((t.agents[0].acc.x, t.agents[0].acc.y), (50, 0));
}

#[test]
fn tick_is_deterministic() {
    let build = || {
        world(
            1000,
            1000,
            vec![
                agent(0, 0, 100, -200),
                agent(30, -40, -500, 0),
                agent(-150, 60, 0, 0),
                agent(400, 400, 250, 250),
            ],
        )
    };
    let mut s = build();
    let mut t = build();
    for _ in 0..10 {
        s.tick(16);
        t.tick(16);
    }
    for (a, b) in s.agents.iter().zip(t.agents.iter()) {
        assert_eq!((a.pos.x, a.pos.y), (b.pos.x, b.pos.y));
        assert_eq!((a.vel.x, a.vel.y), (b.vel.x, b.vel.y));
        assert_eq!((a.heading.x, a.heading.y), (b.heading.x, b.heading.y));
    }
}

#[test]
fn isolated_agent_at_rest_stays_at_rest() {
    // Whatever the multipliers, a lone agent at rest gains no acceleration.
    let mut s = world(1000, 1000, vec![agent(7, -3, 0, 0)]);
    s.set_cohesion_multiplier(3000);
    s.set_separation_multiplier(-2000);
    s.set_alignment_multiplier(500);
    s.tick(1000);
    let a = &s.agents[0];
    assert_eq!((a.acc.x, a.acc.y), (0, 0));
    assert_eq!((a.vel.x, a.vel.y), (0, 0));
    assert_eq!((a.pos.x, a.pos.y), (7, -3));
}

#[test]
fn initialize_population_within_bounds() {
    let vp = Viewport::from_size(800, 600);
    let s = SimState::initialize(50, vp);
    assert_eq!(s.agents.len(), 50);
    assert_eq!(s.params.cohesion_mul_milli, 1000);
    assert_eq!(s.params.separation_mul_milli, 1000);
    assert_eq!(s.params.alignment_mul_milli, 1000);
    for a in &s.agents {
        assert!(vp.min_x <= a.pos.x && a.pos.x < vp.max_x);
        assert!(vp.min_y <= a.pos.y && a.pos.y < vp.max_y);
        let speed_sq = a.vel.x * a.vel.x + a.vel.y * a.vel.y;
        // the initial speed is the fixed 500, to within integer rounding
        assert!(498 * 498 <= speed_sq && speed_sq <= 500 * 500);
        assert_eq!((a.acc.x, a.acc.y), (0, 0));
        assert_eq!((a.forces.cohesion.x, a.forces.cohesion.y), (0, 0));
    }
}

#[test]
fn alignment_averages_velocities() {
    // Two agents close together, cohesion and separation off: each ends
    // with the average of the two velocities blended into its own.
    let mut s = world(2000, 2000, vec![agent(0, 0, 100, 0), agent(10, 0, 300, 0)]);
    s.set_cohesion_multiplier(0);
    s.set_separation_multiplier(0);
    s.tick(1000);
    let a = &s.agents[0];
    // average of 100 and 300 is 200; blended: 100 + 200 = 300
    assert_eq!((a.forces.alignment.x, a.forces.alignment.y), (200, 0));
    assert_eq!((a.vel.x, a.vel.y), (300, 0));
    let b = &s.agents[1];
    assert_eq!((b.forces.alignment.x, b.forces.alignment.y), (200, 0));
    assert_eq!((b.vel.x, b.vel.y), (500, 0));
}
