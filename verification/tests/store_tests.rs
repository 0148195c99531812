use boids::fixed::{MAX_AGENTS, MAX_COORDINATE, MAX_MAGNITUDE, ONE};
use boids::store::{AgentStore, StoreError};
use boids::vector::Vector2;

#[test]
fn store_keeps_agents_by_index() {
    let positions =
        vec![Vector2::new(0, 0), Vector2::new(2 * ONE, 0), Vector2::new(10 * ONE, -ONE)];
    let velocities = vec![Vector2::new(1, 2), Vector2::new(3, 4), Vector2::new(5, 6)];
    let store = AgentStore::from_agents(positions.clone(), velocities.clone()).unwrap();
    assert_eq!(store.len(), 3);
    for i in 0..3 {
        assert_eq!(store.position(i), positions[i]);
        assert_eq!(store.velocity(i), velocities[i]);
    }
}

#[test]
fn empty_store_has_no_agents() {
    assert_eq!(AgentStore::new().len(), 0);
    assert_eq!(AgentStore::from_agents(vec![], vec![]).unwrap().len(), 0);
}

#[test]
fn store_rejects_unequal_lengths() {
    let r = AgentStore::from_agents(vec![Vector2::zero()], vec![]);
    assert_eq!(r.err(), Some(StoreError::LengthMismatch));
}

#[test]
fn store_rejects_too_many_agents() {
    let many = vec![Vector2::zero(); MAX_AGENTS + 1];
    let r = AgentStore::from_agents(many.clone(), many);
    assert_eq!(r.err(), Some(StoreError::TooManyAgents));
    let full = vec![Vector2::zero(); MAX_AGENTS];
    assert_eq!(AgentStore::from_agents(full.clone(), full).unwrap().len(), MAX_AGENTS);
}

#[test]
fn store_rejects_positions_outside_the_world() {
    let r = AgentStore::from_agents(
        vec![Vector2::zero(), Vector2::new(0, MAX_COORDINATE + 1)],
        vec![Vector2::zero(), Vector2::zero()],
    );
    assert_eq!(r.err(), Some(StoreError::PositionOutOfRange));
    let edge = AgentStore::from_agents(
        vec![Vector2::new(-MAX_COORDINATE, MAX_COORDINATE)],
        vec![Vector2::zero()],
    );
    assert!(edge.is_ok());
}

#[test]
fn store_rejects_velocities_outside_the_format() {
    let r = AgentStore::from_agents(
        vec![Vector2::zero()],
        vec![Vector2::new(-MAX_MAGNITUDE - 1, 0)],
    );
    assert_eq!(r.err(), Some(StoreError::VelocityOutOfRange));
    let both = AgentStore::from_agents(
        vec![Vector2::new(MAX_COORDINATE + 1, 0)],
        vec![Vector2::new(MAX_MAGNITUDE + 1, 0)],
    );
    assert_eq!(both.err(), Some(StoreError::PositionOutOfRange));
}

#[test]
fn store_updates_one_agent() {
    let mut store = AgentStore::new();
    store.push(Vector2::new(1, 1), Vector2::new(2, 2));
    store.push(Vector2::new(3, 3), Vector2::new(4, 4));
    store.set_position(1, Vector2::new(-7, 8));
    store.set_velocity(0, Vector2::new(9, -9));
    assert_eq!(store.position(0), Vector2::new(1, 1));
    assert_eq!(store.position(1), Vector2::new(-7, 8));
    assert_eq!(store.velocity(0), Vector2::new(9, -9));
    assert_eq!(store.velocity(1), Vector2::new(4, 4));
}
