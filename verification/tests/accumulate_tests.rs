use boids::accumulate::{
    calculate_alignment, calculate_cohesion, calculate_separation, clear_alignment, clear_cohesion,
    clear_separation, Alignment, Cohesion, Separation,
};
use boids::fixed::ONE;
use boids::store::AgentStore;
use boids::vector::Vector2;

fn store_of(agents: &[((i64, i64), (i64, i64))]) -> AgentStore {
    let positions = agents.iter().map(|a| Vector2::new(a.0 .0, a.0 .1)).collect();
    let velocities = agents.iter().map(|a| Vector2::new(a.1 .0, a.1 .1)).collect();
    AgentStore::from_agents(positions, velocities).unwrap()
}

fn separation_of(store: &AgentStore, radius: i64) -> Vec<Separation> {
    let mut acc = vec![Separation::new(); store.len()];
    calculate_separation(store, radius, &mut acc);
    acc
}

fn alignment_of(store: &AgentStore, inner: i64, outer: i64) -> Vec<Alignment> {
    let mut acc = vec![Alignment::new(); store.len()];
    calculate_alignment(store, inner, outer, &mut acc);
    acc
}

fn cohesion_of(store: &AgentStore, inner: i64, outer: i64) -> Vec<Cohesion> {
    let mut acc = vec![Cohesion::new(); store.len()];
    calculate_cohesion(store, inner, outer, &mut acc);
    acc
}

fn five_agents() -> AgentStore {
    store_of(&[
        ((0, 0), (20 * ONE, 0)),
        ((4 * ONE, 0), (0, 30 * ONE)),
        ((0, 5 * ONE), (-25 * ONE, 10 * ONE)),
        ((ONE, ONE), (16 * ONE, 16 * ONE)),
        ((200 * ONE, -130 * ONE), (40 * ONE, 40 * ONE)),
    ])
}

#[test]
fn new_accumulators_are_clear() {
    assert_eq!(Separation::new().displacement_sum, Vector2::new(0, 0));
    assert_eq!(Alignment::new().velocity_sum, Vector2::new(0, 0));
    assert_eq!(Alignment::new().neighbor_count, 0);
    assert_eq!(Cohesion::new().position_sum, Vector2::new(0, 0));
    assert_eq!(Cohesion::new().neighbor_count, 0);
}

#[test]
fn clearing_resets_every_accumulator() {
    let mut sep = vec![Separation { displacement_sum: Vector2::new(5, -5) }; 3];
    clear_separation(&mut sep);
    assert_eq!(sep, vec![Separation::new(); 3]);
    let mut al = vec![Alignment { velocity_sum: Vector2::new(1, 2), neighbor_count: 7 }; 4];
    clear_alignment(&mut al);
    assert_eq!(al, vec![Alignment::new(); 4]);
    let mut co = vec![Cohesion { position_sum: Vector2::new(-1, 2), neighbor_count: 1 }; 2];
    clear_cohesion(&mut co);
    assert_eq!(co, vec![Cohesion::new(); 2]);
    let mut none: Vec<Separation> = Vec::new();
    clear_separation(&mut none);
    assert!(none.is_empty());
}

#[test]
fn three_agents_on_a_line() {
    let store = store_of(&[
        ((0, 0), (20 * ONE, 0)),
        ((2 * ONE, 0), (0, 30 * ONE)),
        ((10 * ONE, 0), (-25 * ONE, 0)),
    ]);
    let sep = separation_of(&store, 3 * ONE);
    assert_eq!(sep[0].displacement_sum, Vector2::new(-2 * ONE, 0));
    assert_eq!(sep[1].displacement_sum, Vector2::new(2 * ONE, 0));
    assert_eq!(sep[2].displacement_sum, Vector2::new(0, 0));
    let al = alignment_of(&store, 3 * ONE, 6 * ONE);
    assert_eq!(al, vec![Alignment::new(); 3]);
    let co = cohesion_of(&store, 3 * ONE, 6 * ONE);
    assert_eq!(co, vec![Cohesion::new(); 3]);
}

#[test]
fn separation_of_a_pair_is_opposite() {
    let store = store_of(&[((7, -3), (0, 0)), ((-5, 11), (0, 0))]);
    let sep = separation_of(&store, ONE);
    assert_eq!(sep[0].displacement_sum, Vector2::new(12, -14));
    assert_eq!(sep[1].displacement_sum, Vector2::new(-12, 14));
}

#[test]
fn separation_sums_of_a_flock_cancel() {
    let store = five_agents();
    let sep = separation_of(&store, 6 * ONE);
    let total_x: i64 = sep.iter().map(|s| s.displacement_sum.x).sum();
    let total_y: i64 = sep.iter().map(|s| s.displacement_sum.y).sum();
    assert_eq!((total_x, total_y), (0, 0));
    assert!(sep.iter().any(|s| s.displacement_sum != Vector2::new(0, 0)));
}

#[test]
fn agents_exactly_the_separation_radius_apart_do_nothing() {
    let store = store_of(&[((0, 0), (ONE, 0)), ((3 * ONE, 4 * ONE), (0, ONE))]);
    let sep = separation_of(&store, 5 * ONE);
    assert_eq!(sep, vec![Separation::new(); 2]);
    let al = alignment_of(&store, 5 * ONE, 9 * ONE);
    assert_eq!(al, vec![Alignment::new(); 2]);
    let co = cohesion_of(&store, 5 * ONE, 9 * ONE);
    assert_eq!(co, vec![Cohesion::new(); 2]);
    let closer = separation_of(&store, 5 * ONE + 1);
    assert_eq!(closer[0].displacement_sum, Vector2::new(-3 * ONE, -4 * ONE));
    let farther = alignment_of(&store, 5 * ONE - 1, 9 * ONE);
    assert_eq!(farther[0].neighbor_count, 1);
}

#[test]
fn agents_exactly_the_visible_radius_apart_do_nothing() {
    let store = store_of(&[((0, 0), (ONE, 0)), ((-6 * ONE, 8 * ONE), (0, ONE))]);
    let al = alignment_of(&store, 3 * ONE, 10 * ONE);
    assert_eq!(al, vec![Alignment::new(); 2]);
    let co = cohesion_of(&store, 3 * ONE, 10 * ONE);
    assert_eq!(co, vec![Cohesion::new(); 2]);
    let sep = separation_of(&store, 3 * ONE);
    assert_eq!(sep, vec![Separation::new(); 2]);
    let al = alignment_of(&store, 3 * ONE, 10 * ONE + 1);
    assert_eq!(al[0], Alignment { velocity_sum: Vector2::new(0, ONE), neighbor_count: 1 });
    assert_eq!(al[1], Alignment { velocity_sum: Vector2::new(ONE, 0), neighbor_count: 1 });
    let co = cohesion_of(&store, 3 * ONE, 10 * ONE + 1);
    let far = Vector2::new(-6 * ONE, 8 * ONE);
    assert_eq!(co[0], Cohesion { position_sum: far, neighbor_count: 1 });
    assert_eq!(co[1], Cohesion { position_sum: Vector2::new(0, 0), neighbor_count: 1 });
}

#[test]
fn five_agents_in_two_bands() {
    let store = five_agents();
    let sep = separation_of(&store, 3 * ONE);
    let sums: Vec<(i64, i64)> =
        sep.iter().map(|s| (s.displacement_sum.x, s.displacement_sum.y)).collect();
    assert_eq!(sums, vec![(-ONE, -ONE), (0, 0), (0, 0), (ONE, ONE), (0, 0)]);
    let al = alignment_of(&store, 3 * ONE, 6 * ONE);
    let sums: Vec<(i64, i64, u32)> =
        al.iter().map(|a| (a.velocity_sum.x, a.velocity_sum.y, a.neighbor_count)).collect();
    assert_eq!(
        sums,
        vec![
            (-26_214_400, 41_943_040, 2),
            (37_748_736, 16_777_216, 2),
            (37_748_736, 16_777_216, 2),
            (-26_214_400, 41_943_040, 2),
            (0, 0, 0),
        ]
    );
    let co = cohesion_of(&store, 3 * ONE, 6 * ONE);
    let sums: Vec<(i64, i64, u32)> =
        co.iter().map(|c| (c.position_sum.x, c.position_sum.y, c.neighbor_count)).collect();
    assert_eq!(
        sums,
        vec![
            (4_194_304, 5_242_880, 2),
            (1_048_576, 1_048_576, 2),
            (1_048_576, 1_048_576, 2),
            (4_194_304, 5_242_880, 2),
            (0, 0, 0),
        ]
    );
}

#[test]
fn sweeps_of_an_empty_and_a_single_flock() {
    let empty = store_of(&[]);
    assert!(separation_of(&empty, ONE).is_empty());
    assert!(alignment_of(&empty, ONE, 2 * ONE).is_empty());
    let single = store_of(&[((5, 5), (1, 1))]);
    assert_eq!(separation_of(&single, ONE), vec![Separation::new()]);
    assert_eq!(cohesion_of(&single, 0, ONE), vec![Cohesion::new()]);
}
