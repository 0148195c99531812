use boids::config::{BoundaryPolicy, SimulationConfig};
use boids::fixed::{MAX_COORDINATE, ONE};
use boids::integrate::{integrate_position, move_boids};
use boids::store::AgentStore;
use boids::vector::Vector2;

fn wrapping() -> SimulationConfig {
    let mut cfg = SimulationConfig::default();
    cfg.boundary = BoundaryPolicy::PeriodicWrap;
    cfg
}

#[test]
fn a_tick_moves_by_a_sixtieth_of_the_velocity() {
    let cfg = SimulationConfig::default();
    let r = integrate_position(Vector2::new(0, 0), Vector2::new(60 * ONE, -30 * ONE), &cfg);
    assert_eq!(r, Vector2::new(ONE, -ONE / 2));
    let r = integrate_position(Vector2::new(2 * ONE, 0), Vector2::new(209_716, 31_457_280), &cfg);
    assert_eq!(r, Vector2::new(2_100_647, 524_288));
}

#[test]
fn the_step_is_rounded_toward_zero() {
    let cfg = SimulationConfig::default();
    let p = Vector2::new(7, 7);
    assert_eq!(integrate_position(p, Vector2::new(-59, 59), &cfg), Vector2::new(7, 7));
    assert_eq!(integrate_position(p, Vector2::new(-60, 61), &cfg), Vector2::new(6, 8));
}

#[test]
fn the_soft_margin_lets_an_agent_leave_the_box() {
    let cfg = SimulationConfig::default();
    let r = integrate_position(
        Vector2::new(124 * ONE, -124 * ONE),
        Vector2::new(60 * ONE, -60 * ONE),
        &cfg,
    );
    assert_eq!(r, Vector2::new(125 * ONE, -125 * ONE));
    let r = integrate_position(Vector2::new(125 * ONE, 0), Vector2::new(60 * ONE, 0), &cfg);
    assert_eq!(r, Vector2::new(126 * ONE, 0));
}

#[test]
fn the_world_has_an_edge() {
    let cfg = SimulationConfig::default();
    let r = integrate_position(
        Vector2::new(MAX_COORDINATE - 5, -MAX_COORDINATE + 5),
        Vector2::new(60 * ONE, -60 * ONE),
        &cfg,
    );
    assert_eq!(r, Vector2::new(MAX_COORDINATE, -MAX_COORDINATE));
}

#[test]
fn wrapping_brings_an_agent_back_from_the_other_side() {
    let cfg = wrapping();
    let r = integrate_position(
        Vector2::new(124 * ONE, -124 * ONE),
        Vector2::new(60 * ONE, -60 * ONE),
        &cfg,
    );
    assert_eq!(r, Vector2::new(-125 * ONE, -125 * ONE));
    let r = integrate_position(Vector2::new(-125 * ONE, 0), Vector2::new(-60, 0), &cfg);
    assert_eq!(r, Vector2::new(125 * ONE - 1, 0));
    let r = integrate_position(Vector2::new(1000 * ONE + 3, 10), Vector2::new(0, 0), &cfg);
    assert_eq!(r, Vector2::new(3, 10));
}

#[test]
fn wrapping_in_a_box_of_odd_size_or_no_size() {
    let mut cfg = wrapping();
    cfg.box_size = 251;
    let r = integrate_position(Vector2::new(-1000 * ONE - 3, 0), Vector2::new(0, 0), &cfg);
    assert_eq!(r, Vector2::new(91, 0));
    cfg.box_size = 0;
    let r = integrate_position(Vector2::new(5, -5), Vector2::new(0, 0), &cfg);
    assert_eq!(r, Vector2::new(5, -5));
}

#[test]
fn move_boids_moves_every_agent() {
    let cfg = SimulationConfig::default();
    let velocities =
        vec![
            Vector2::new(20_761_804, 0),
            Vector2::new(209_716, 31_457_280),
            Vector2::new(-26_214_400, 0),
        ];
    let mut store = AgentStore::from_agents(
        vec![Vector2::new(0, 0), Vector2::new(2 * ONE, 0), Vector2::new(10 * ONE, 0)],
        velocities.clone(),
    )
    .unwrap();
    move_boids(&mut store, &cfg);
    assert_eq!(store.position(0), Vector2::new(346_030, 0));
    assert_eq!(store.position(1), Vector2::new(2_100_647, 524_288));
    assert_eq!(store.position(2), Vector2::new(10_048_854, 0));
    for k in 0..3 {
        assert_eq!(store.velocity(k), velocities[k]);
    }
}
