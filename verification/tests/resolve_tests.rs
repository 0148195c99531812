use boids::accumulate::{Alignment, Cohesion, Separation};
use boids::config::{BoundaryPolicy, SimulationConfig};
use boids::fixed::ONE;
use boids::resolve::{resolve_velocity, update_boid_velocity};
use boids::store::AgentStore;
use boids::vector::Vector2;

fn sep(x: i64, y: i64) -> Separation {
    Separation { displacement_sum: Vector2::new(x, y) }
}

fn al(x: i64, y: i64, n: u32) -> Alignment {
    Alignment { velocity_sum: Vector2::new(x, y), neighbor_count: n }
}

fn co(x: i64, y: i64, n: u32) -> Cohesion {
    Cohesion { position_sum: Vector2::new(x, y), neighbor_count: n }
}

#[test]
fn separation_alone_changes_the_velocity_by_a_tenth_of_the_sum() {
    let cfg = SimulationConfig::default();
    let r = resolve_velocity(
        Vector2::new(20 * ONE, 0),
        Vector2::new(0, 0),
        &sep(-2 * ONE, 0),
        &Alignment::new(),
        &Cohesion::new(),
        None,
        &cfg,
    );
    assert_eq!(r, Vector2::new(20 * ONE - 209_716, 0));
    let r = resolve_velocity(
        Vector2::new(0, 30 * ONE),
        Vector2::new(2 * ONE, 0),
        &sep(2 * ONE, 0),
        &Alignment::new(),
        &Cohesion::new(),
        None,
        &cfg,
    );
    assert_eq!(r, Vector2::new(209_716, 30 * ONE));
}

#[test]
fn an_agent_without_influence_keeps_its_velocity() {
    let cfg = SimulationConfig::default();
    let v = Vector2::new(-25 * ONE, 0);
    let r = resolve_velocity(
        v,
        Vector2::new(10 * ONE, 0),
        &Separation::new(),
        &Alignment::new(),
        &Cohesion::new(),
        None,
        &cfg,
    );
    assert_eq!(r, v);
}

#[test]
fn neighbours_steer_by_their_mean_velocity_and_their_centroid() {
    let cfg = SimulationConfig::default();
    let r = resolve_velocity(
        Vector2::new(20 * ONE, 0),
        Vector2::new(0, 0),
        &sep(-ONE, -ONE),
        &al(-26_214_400, 41_943_040, 2),
        &co(4_194_304, 5_242_880, 2),
        None,
        &cfg,
    );
    assert_eq!(r, Vector2::new(20_697_313, 1_312));
    let r = resolve_velocity(
        Vector2::new(-25 * ONE, 10 * ONE),
        Vector2::new(0, 5 * ONE),
        &Separation::new(),
        &al(37_748_736, 16_777_216, 2),
        &co(1_048_576, 1_048_576, 2),
        None,
        &cfg,
    );
    assert_eq!(r, Vector2::new(-25_988_689, 10_472_916));
}

#[test]
fn a_target_in_reach_attracts() {
    let cfg = SimulationConfig::default();
    let target = Some(Vector2::new(10 * ONE, 10 * ONE));
    let r = resolve_velocity(
        Vector2::new(20 * ONE, 0),
        Vector2::new(0, 0),
        &sep(-ONE, -ONE),
        &al(-26_214_400, 41_943_040, 2),
        &co(4_194_304, 5_242_880, 2),
        target,
        &cfg,
    );
    assert_eq!(r, Vector2::new(21_438_768, 742_767));
}

#[test]
fn a_target_out_of_reach_or_at_the_agent_does_nothing() {
    let cfg = SimulationConfig::default();
    let v = Vector2::new(40 * ONE, 0);
    let p = Vector2::new(5 * ONE, 5 * ONE);
    let none = resolve_velocity(
        v,
        p,
        &Separation::new(),
        &Alignment::new(),
        &Cohesion::new(),
        None,
        &cfg,
    );
    for target in [
        Vector2::new(5 * ONE, 5 * ONE),
        Vector2::new(65 * ONE, 5 * ONE),
        Vector2::new(5 * ONE, -55 * ONE),
        Vector2::new(i64::MAX, i64::MIN),
        Vector2::new(i64::MIN, 0),
    ] {
        let r = resolve_velocity(
            v,
            p,
            &Separation::new(),
            &Alignment::new(),
            &Cohesion::new(),
            Some(target),
            &cfg,
        );
        assert_eq!(r, none);
    }
    let near = resolve_velocity(
        v,
        p,
        &Separation::new(),
        &Alignment::new(),
        &Cohesion::new(),
        Some(Vector2::new(65 * ONE - 1, 5 * ONE)),
        &cfg,
    );
    assert_eq!(near, Vector2::new(41 * ONE, 0));
}

#[test]
fn a_negative_attractor_coefficient_repels() {
    let mut cfg = SimulationConfig::default();
    cfg.coeff_attractor = -ONE;
    let r = resolve_velocity(
        Vector2::new(40 * ONE, 0),
        Vector2::new(0, 0),
        &Separation::new(),
        &Alignment::new(),
        &Cohesion::new(),
        Some(Vector2::new(0, 7)),
        &cfg,
    );
    assert_eq!(r, Vector2::new(40 * ONE, -ONE));
}

#[test]
fn the_soft_margin_pushes_back_toward_the_box() {
    let cfg = SimulationConfig::default();
    let r = resolve_velocity(
        Vector2::new(40 * ONE, 40 * ONE),
        Vector2::new(200 * ONE, -130 * ONE),
        &Separation::new(),
        &Alignment::new(),
        &Cohesion::new(),
        None,
        &cfg,
    );
    assert_eq!(r, Vector2::new(39 * ONE, 41 * ONE));
    let on_the_margin = resolve_velocity(
        Vector2::new(40 * ONE, 40 * ONE),
        Vector2::new(125 * ONE, -125 * ONE),
        &Separation::new(),
        &Alignment::new(),
        &Cohesion::new(),
        None,
        &cfg,
    );
    assert_eq!(on_the_margin, Vector2::new(40 * ONE, 40 * ONE));
    let other_side = resolve_velocity(
        Vector2::new(40 * ONE, 40 * ONE),
        Vector2::new(-125 * ONE - 1, 125 * ONE + 1),
        &Separation::new(),
        &Alignment::new(),
        &Cohesion::new(),
        None,
        &cfg,
    );
    assert_eq!(other_side, Vector2::new(41 * ONE, 39 * ONE));
}

#[test]
fn the_wrap_policy_leaves_the_velocity_alone() {
    let mut cfg = SimulationConfig::default();
    cfg.boundary = BoundaryPolicy::PeriodicWrap;
    let v = Vector2::new(40 * ONE, 40 * ONE);
    let r = resolve_velocity(
        v,
        Vector2::new(200 * ONE, -130 * ONE),
        &Separation::new(),
        &Alignment::new(),
        &Cohesion::new(),
        None,
        &cfg,
    );
    assert_eq!(r, v);
}

#[test]
fn the_speed_is_clamped_into_the_range() {
    let cfg = SimulationConfig::default();
    let fast = resolve_velocity(
        Vector2::new(300 * ONE, 400 * ONE),
        Vector2::new(0, 0),
        &Separation::new(),
        &Alignment::new(),
        &Cohesion::new(),
        None,
        &cfg,
    );
    assert_eq!(fast, Vector2::new(36 * ONE, 48 * ONE));
    let slow = resolve_velocity(
        Vector2::new(-3 * ONE, 4 * ONE),
        Vector2::new(0, 0),
        &Separation::new(),
        &Alignment::new(),
        &Cohesion::new(),
        None,
        &cfg,
    );
    assert_eq!(slow, Vector2::new(-9 * ONE, 12 * ONE));
    let still = resolve_velocity(
        Vector2::new(0, 0),
        Vector2::new(0, 0),
        &Separation::new(),
        &Alignment::new(),
        &Cohesion::new(),
        None,
        &cfg,
    );
    assert_eq!(still, Vector2::new(0, 15 * ONE));
}

#[test]
fn update_gives_every_agent_its_resolved_velocity() {
    let cfg = SimulationConfig::default();
    let positions = vec![Vector2::new(0, 0), Vector2::new(2 * ONE, 0), Vector2::new(10 * ONE, 0)];
    let velocities =
        vec![Vector2::new(20 * ONE, 0), Vector2::new(0, 30 * ONE), Vector2::new(-25 * ONE, 0)];
    let mut store = AgentStore::from_agents(positions.clone(), velocities).unwrap();
    let separation = vec![sep(-2 * ONE, 0), sep(2 * ONE, 0), sep(0, 0)];
    let alignment = vec![Alignment::new(); 3];
    let cohesion = vec![Cohesion::new(); 3];
    update_boid_velocity(&mut store, &separation, &alignment, &cohesion, None, &cfg);
    assert_eq!(store.velocity(0), Vector2::new(20_761_804, 0));
    assert_eq!(store.velocity(1), Vector2::new(209_716, 31_457_280));
    assert_eq!(store.velocity(2), Vector2::new(-26_214_400, 0));
    for k in 0..3 {
        assert_eq!(store.position(k), positions[k]);
    }
}
