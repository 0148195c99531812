use boids::config::SimulationConfig;
use boids::fixed::ONE;
use boids::spawn::{spawn_agent, spawn_boids, spawn_from_words, Generator};
use rand::rngs::StdRng;
use rand::{RngCore, SeedableRng};
use boids::vector::Vector2;

const HALF: u32 = 0x8000_0000;

#[test]
fn spawn_agent_places_the_samples_in_the_box() {
    let cfg = SimulationConfig::default();
    let (p, _) = spawn_agent(0, u32::MAX, HALF, HALF, 0, &cfg);
    assert_eq!(p, Vector2::new(-125 * ONE, 131_071_984));
    let (p, _) = spawn_agent(HALF, 0x4000_0000, HALF, HALF, 0, &cfg);
    assert_eq!(p, Vector2::new(0, -65_536_000));
}

#[test]
fn spawn_agent_ignores_the_lowest_eight_bits_of_a_word() {
    let cfg = SimulationConfig::default();
    let a = spawn_agent(0x1234_5600, 0x9abc_de00, 0x1111_1100, 0xeeee_ee00, 0x7777_7700, &cfg);
    let b = spawn_agent(0x1234_56ff, 0x9abc_deff, 0x1111_11ff, 0xeeee_eeff, 0x7777_77ff, &cfg);
    assert_eq!(a, b);
}

#[test]
fn spawn_agent_scales_the_direction_to_the_speed() {
    let cfg = SimulationConfig::default();
    let (_, v) = spawn_agent(0, 0, u32::MAX, HALF, 0, &cfg);
    assert_eq!(v, Vector2::new(15 * ONE, 0));
    let (_, v) = spawn_agent(0, 0, 0, 0, HALF, &cfg);
    assert_eq!(v, Vector2::new(-27_804_570, -27_804_570));
    let (_, v) = spawn_agent(0, 0, HALF + (3 << 8), HALF - (4 << 8), u32::MAX, &cfg);
    assert_eq!(v, Vector2::new(37_748_734, -50_331_645));
}

#[test]
fn spawn_agent_without_direction_points_up() {
    let cfg = SimulationConfig::default();
    let (_, v) = spawn_agent(7, 7, HALF, HALF, 0, &cfg);
    assert_eq!(v, Vector2::new(0, 15 * ONE));
    let (_, v) = spawn_agent(7, 7, HALF + 255, HALF + 1, HALF, &cfg);
    assert_eq!(v, Vector2::new(0, 39_321_600));
}

#[test]
fn spawn_from_words_takes_five_words_for_each_agent() {
    let cfg = SimulationConfig::default();
    let words: Vec<u32> = (0..15u32).map(|i| i.wrapping_mul(0x9e37_79b9)).collect();
    let store = spawn_from_words(&words, 3, &cfg);
    assert_eq!(store.len(), 3);
    for k in 0..3 {
        let w = &words[5 * k..5 * k + 5];
        let (p, v) = spawn_agent(w[0], w[1], w[2], w[3], w[4], &cfg);
        assert_eq!(store.position(k), p);
        assert_eq!(store.velocity(k), v);
    }
    let fewer = spawn_from_words(&words, 2, &cfg);
    assert_eq!(fewer.len(), 2);
    assert_eq!(fewer.position(1), store.position(1));
    assert_eq!(spawn_from_words(&words, 0, &cfg).len(), 0);
}

#[test]
fn spawned_speeds_lie_in_the_speed_range() {
    let cfg = SimulationConfig::default();
    let words: Vec<u32> = (0..5000u32).map(|i| i.wrapping_mul(0x9e37_79b9) ^ (i << 13)).collect();
    let store = spawn_from_words(&words, 1000, &cfg);
    for k in 0..1000 {
        let v = store.velocity(k);
        let n = (v.x as i128) * (v.x as i128) + (v.y as i128) * (v.y as i128);
        let lo = (cfg.min_speed - 3) as i128;
        let hi = cfg.max_speed as i128;
        assert!(lo * lo <= n && n <= hi * hi);
        let p = store.position(k);
        assert!(p.x.abs() <= cfg.box_size / 2 && p.y.abs() <= cfg.box_size / 2);
    }
}

#[test]
fn generator_hands_out_the_words_of_the_standard_generator() {
    let mut generator = Generator::new(55);
    assert_eq!(generator.seed(), 55);
    let mut rng = StdRng::seed_from_u64(55);
    let first = generator.draw(7);
    let expected: Vec<u32> = (0..7).map(|_| rng.next_u32()).collect();
    assert_eq!(first, expected);
    assert!(generator.draw(0).is_empty());
    let second = generator.draw(100);
    let expected: Vec<u32> = (0..100).map(|_| rng.next_u32()).collect();
    assert_eq!(second, expected);
    assert_ne!(&second[..7], &first[..]);
}

#[test]
fn spawn_boids_draws_from_where_the_generator_stands() {
    let cfg = SimulationConfig::default();
    let mut generator = Generator::new(55);
    generator.draw(7);
    let store = spawn_boids(&mut generator, 20, &cfg);
    assert_eq!(store.len(), 20);
    let mut rng = StdRng::seed_from_u64(55);
    for _ in 0..7 {
        rng.next_u32();
    }
    let words: Vec<u32> = (0..100).map(|_| rng.next_u32()).collect();
    let expected = spawn_from_words(&words, 20, &cfg);
    for k in 0..20 {
        assert_eq!(store.position(k), expected.position(k));
        assert_eq!(store.velocity(k), expected.velocity(k));
    }
    let next: Vec<u32> = (0..3).map(|_| rng.next_u32()).collect();
    assert_eq!(generator.draw(3), next);
    let first = spawn_boids(&mut Generator::new(55), 20, &cfg);
    assert!((0..20).any(|k| first.position(k) != store.position(k)));
    assert_eq!(spawn_boids(&mut Generator::new(55), 0, &cfg).len(), 0);
}

#[test]
fn spawn_boids_is_the_same_for_the_same_seed() {
    let cfg = SimulationConfig::default();
    let a = spawn_boids(&mut Generator::new(123_456_789), 64, &cfg);
    let b = spawn_boids(&mut Generator::new(123_456_789), 64, &cfg);
    for k in 0..64 {
        assert_eq!(a.position(k), b.position(k));
        assert_eq!(a.velocity(k), b.velocity(k));
    }
}
