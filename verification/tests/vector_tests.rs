use boids::fixed::{ceil_sqrt_u128, MAX_MAGNITUDE, MAX_UNCLAMPED, ONE};
use boids::vector::Vector2;

fn norm_sq(v: Vector2) -> i128 {
    (v.x as i128) * (v.x as i128) + (v.y as i128) * (v.y as i128)
}

#[test]
fn ceil_sqrt_of_squares_and_their_neighbours() {
    assert_eq!(ceil_sqrt_u128(0), 0);
    assert_eq!(ceil_sqrt_u128(1), 1);
    assert_eq!(ceil_sqrt_u128(2), 2);
    assert_eq!(ceil_sqrt_u128(10), 4);
    assert_eq!(ceil_sqrt_u128(16), 4);
    assert_eq!(ceil_sqrt_u128(17), 5);
    assert_eq!(ceil_sqrt_u128(1u128 << 64), 4_294_967_296);
    assert_eq!(ceil_sqrt_u128(1u128 << 126), 9_223_372_036_854_775_808);
    assert_eq!(ceil_sqrt_u128(u128::MAX), 18_446_744_073_709_551_616);
}

#[test]
fn with_length_scales_a_long_vector_down() {
    let v = Vector2::new(3 * ONE, 4 * ONE);
    assert_eq!(v.with_length(ONE * 5 / 2), Vector2::new(1_572_864, 2_097_152));
    let w = Vector2::new(100 * ONE, 100 * ONE);
    assert_eq!(w.with_length(60 * ONE), Vector2::new(44_487_311, 44_487_311));
}

#[test]
fn with_length_scales_a_short_vector_up() {
    assert_eq!(Vector2::new(3, 4).with_length(10 * ONE), Vector2::new(6_291_456, 8_388_608));
    assert_eq!(Vector2::new(1, 1).with_length(ONE), Vector2::new(741_454, 741_454));
}

#[test]
fn with_length_keeps_the_quadrant() {
    assert_eq!(Vector2::new(-7 * ONE, 2 * ONE).with_length(ONE), Vector2::new(-1_008_230, 288_065));
}

#[test]
fn with_length_of_the_zero_vector_points_up() {
    assert_eq!(Vector2::zero().with_length(15 * ONE), Vector2::new(0, 15 * ONE));
}

#[test]
fn with_length_zero_is_the_zero_vector() {
    assert_eq!(Vector2::new(5, -9).with_length(0), Vector2::new(0, 0));
}

#[test]
fn with_length_is_within_three_units_of_the_length_asked_for() {
    let lengths = [3, 4, 1000, ONE, 15 * ONE, 60 * ONE, MAX_MAGNITUDE];
    let vectors = [
        Vector2::new(1, 0),
        Vector2::new(1, 1),
        Vector2::new(-1, 7),
        Vector2::new(123_456_789, -987_654_321),
        Vector2::new(MAX_UNCLAMPED, MAX_UNCLAMPED),
        Vector2::new(-MAX_UNCLAMPED, 1),
        Vector2::new(0, -5),
    ];
    for t in lengths {
        for v in vectors {
            let r = v.with_length(t);
            let t = t as i128;
            assert!(norm_sq(r) <= t * t);
            assert!(norm_sq(r) >= (t - 3) * (t - 3));
            assert!(r.x.signum() == v.x.signum() || r.x == 0);
            assert!(r.y.signum() == v.y.signum() || r.y == 0);
        }
    }
}

#[test]
fn clamp_length_leaves_a_vector_in_range_alone() {
    let v = Vector2::new(20 * ONE, -3 * ONE);
    assert_eq!(v.clamp_length(15 * ONE, 60 * ONE), v);
    let edge = Vector2::new(0, 60 * ONE);
    assert_eq!(edge.clamp_length(15 * ONE, 60 * ONE), edge);
    let low = Vector2::new(-15 * ONE, 0);
    assert_eq!(low.clamp_length(15 * ONE, 60 * ONE), low);
}

#[test]
fn clamp_length_scales_to_the_nearer_end() {
    let fast = Vector2::new(300 * ONE, 400 * ONE);
    assert_eq!(fast.clamp_length(15 * ONE, 50 * ONE), Vector2::new(30 * ONE, 40 * ONE));
    let slow = Vector2::new(3 * ONE, 4 * ONE);
    assert_eq!(slow.clamp_length(10 * ONE, 50 * ONE), Vector2::new(6 * ONE, 8 * ONE));
}

#[test]
fn clamp_length_of_the_zero_vector_points_up_at_minimum_speed() {
    assert_eq!(Vector2::zero().clamp_length(15 * ONE, 60 * ONE), Vector2::new(0, 15 * ONE));
    assert_eq!(Vector2::zero().clamp_length(0, 60 * ONE), Vector2::zero());
}
