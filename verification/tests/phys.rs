use opt::clock::Span;
use opt::phys::{
    narrow, ratio, root_up, scale, seconds, Acceleration, Distance, Position, UniformAcceleration,
    UniformPosition, UniformVec2, UniformVelocity, Vec2, Velocity, LIMIT, UNIT,
};

#[test]
fn one_is_a_thousand_thousandths() {
    assert_eq!(UNIT, 1000);
    assert_eq!(LIMIT, i64::MAX);
}

#[test]
fn narrow_saturates_symmetrically() {
    assert_eq!(narrow(5), 5);
    assert_eq!(narrow(-5), -5);
    assert_eq!(narrow(i64::MAX as i128 + 1), i64::MAX);
    assert_eq!(narrow(i64::MIN as i128), -i64::MAX);
    assert_eq!(narrow(i128::MIN), -i64::MAX);
    assert_eq!(narrow(i128::MAX), i64::MAX);
}

#[test]
fn scale_rounds_toward_zero() {
    assert_eq!(scale(10, 7, 10), 7);
    assert_eq!(scale(9, 7, 10), 6);
    assert_eq!(scale(-9, 7, 10), -6);
    assert_eq!(scale(9, -7, 10), -6);
    assert_eq!(scale(9, 7, -10), -6);
    assert_eq!(scale(-9, -7, -10), -6);
    assert_eq!(scale(0, 7, 10), 0);
}

#[test]
fn scale_does_not_overflow_on_the_way() {
    assert_eq!(scale(i64::MAX, i64::MAX, i64::MAX), i64::MAX);
    assert_eq!(scale(i64::MIN, i64::MIN, i64::MAX), i64::MAX);
    assert_eq!(scale(i64::MIN, i64::MAX, 1), -i64::MAX);
    assert_eq!(scale(4_000_000_000, 4_000_000_000, 1), i64::MAX);
    assert_eq!(scale(4_000_000_000, 4_000_000_000, 4_000_000_000), 4_000_000_000);
}

#[test]
fn ratio_takes_a_wide_divisor() {
    assert_eq!(ratio(i64::MAX, 2, 1i128 << 64), 0);
    assert_eq!(ratio(i64::MAX, i64::MAX, 1i128 << 64), 4_611_686_018_427_387_903);
    assert_eq!(ratio(i64::MAX, i64::MAX, 1i128 << 62), i64::MAX);
    assert_eq!(ratio(-9, 7, 10), -6);
}

#[test]
fn root_up_rounds_up() {
    assert_eq!(root_up(0), 0);
    assert_eq!(root_up(1), 1);
    assert_eq!(root_up(2), 2);
    assert_eq!(root_up(4), 2);
    assert_eq!(root_up(5), 3);
    assert_eq!(root_up(24), 5);
    assert_eq!(root_up(25), 5);
    assert_eq!(root_up(26), 6);
    assert_eq!(root_up(1_000_000_000_000), 1_000_000);
    assert_eq!(root_up(1_000_000_000_001), 1_000_001);
    assert_eq!(root_up(1u128 << 127), 13_043_817_825_332_782_213);
}

#[test]
fn vectors_add_and_subtract_by_component() {
    let a = Vec2 { x: 1_500, y: -2_000 };
    let b = Vec2 { x: 250, y: 4_000 };
    assert_eq!(a + b, Vec2 { x: 1_750, y: 2_000 });
    assert_eq!(a - b, Vec2 { x: 1_250, y: -6_000 });
    assert_eq!(-a, Vec2 { x: -1_500, y: 2_000 });
    let mut c = a;
    c += b;
    assert_eq!(c, a + b);
    c -= b;
    assert_eq!(c, a);
}

#[test]
fn vectors_saturate() {
    let far = Vec2 { x: i64::MAX, y: i64::MIN };
    let one = Vec2 { x: 1, y: 1 };
    assert_eq!(far + one, Vec2 { x: i64::MAX, y: i64::MIN + 1 });
    assert_eq!(far - one, Vec2 { x: i64::MAX - 1, y: -i64::MAX });
    assert_eq!(-far, Vec2 { x: -i64::MAX, y: i64::MAX });
}

#[test]
fn vectors_scale_by_fixed_point_factors() {
    let v = Vec2 { x: 3_000, y: -1_001 };
    assert_eq!(v * 2_000, Vec2 { x: 6_000, y: -2_002 });
    assert_eq!(v * 700, Vec2 { x: 2_100, y: -700 });
    assert_eq!(v / 2_000, Vec2 { x: 1_500, y: -500 });
    assert_eq!(v.stretch(1, 3), Vec2 { x: 1_000, y: -333 });
    let mut w = v;
    w *= 500;
    assert_eq!(w, Vec2 { x: 1_500, y: -500 });
}

#[test]
fn vector_lengths() {
    let v = Vec2 { x: 3_000, y: -4_000 };
    assert_eq!(v.taxicab(), 7_000);
    assert_eq!(v.chebyshev(), 4_000);
    assert_eq!(v.euclid_squared(), 25_000);
    assert_eq!(v.raw_square_sum(), 25_000_000);
    let tiny = Vec2 { x: 31, y: 0 };
    assert_eq!(tiny.euclid_squared(), 0);
    let lowest = Vec2 { x: i64::MIN, y: i64::MIN };
    assert_eq!(lowest.taxicab(), i64::MAX);
    assert_eq!(lowest.chebyshev(), i64::MAX);
    assert_eq!(lowest.euclid_squared(), i64::MAX);
    assert_eq!(lowest.raw_square_sum(), 1u128 << 127);
}

#[test]
fn vectors_come_from_pairs() {
    assert_eq!(Vec2::from((1, 2)), Vec2 { x: 1, y: 2 });
    assert_eq!(Vec2::default(), Vec2 { x: 0, y: 0 });
    assert_eq!(Position::from((1, 2)), Position::new(1, 2));
    assert_eq!(Position::from([1, 2]), Position::new(1, 2));
    assert_eq!(Position::from(Vec2 { x: 1, y: 2 }), Position::new(1, 2));
    assert_eq!(Distance::from((1, 2)), Distance::new(1, 2));
    assert_eq!(Distance::from([1, 2]), Distance::new(1, 2));
    assert_eq!(Velocity::from((1, 2)), Velocity::new(1, 2));
    assert_eq!(Acceleration::from((1, 2)), Acceleration::new(1, 2));
    assert_eq!(Position::default(), Position::new(0, 0));
    assert_eq!(Distance::default(), Distance::new(0, 0));
    assert_eq!(Velocity::default(), Velocity::new(0, 0));
    assert_eq!(Acceleration::default(), Acceleration::new(0, 0));
}

#[test]
fn positions_differ_by_a_distance() {
    let a = Position::new(10_000, 0);
    let b = Position::new(0, 10_000);
    assert_eq!(a - b, Distance::new(10_000, -10_000));
    assert_eq!(b + (a - b), a);
    assert_eq!(a - (a - b), b);
    let mut c = b;
    c += a - b;
    assert_eq!(c, a);
}

#[test]
fn distances_add_scale_and_turn_round() {
    let d = Distance::new(3_000, -4_000);
    assert_eq!(d + d, Distance::new(6_000, -8_000));
    assert_eq!(-d, Distance::new(-3_000, 4_000));
    assert_eq!(d * 500, Distance::new(1_500, -2_000));
    assert_eq!(d / 500, Distance::new(6_000, -8_000));
    assert_eq!(d.taxicab(), 7_000);
    assert_eq!(d.chebyshev(), 4_000);
    assert_eq!(d.euclid_squared(), 25_000);
    let mut e = d;
    e += d;
    assert_eq!(e, d + d);
}

#[test]
fn spans_turn_into_fixed_point_seconds() {
    assert_eq!(seconds(Span::from_millis(50)), 50);
    assert_eq!(seconds(Span::from_secs(2)), 2_000);
    assert_eq!(seconds(Span::from_nanos(1_999_999)), 1);
    assert_eq!(seconds(Span::zero()), 0);
    assert_eq!(seconds(Span(u128::MAX)), i64::MAX);
}

#[test]
fn a_velocity_over_a_time_is_a_distance() {
    let v = Velocity::new(10_000, -3_000);
    assert_eq!(v * Span::from_millis(50), Distance::new(500, -150));
    assert_eq!(v * Span::from_secs(2), Distance::new(20_000, -6_000));
    assert_eq!(v * Span::zero(), Distance::new(0, 0));
}

#[test]
fn an_acceleration_over_a_time_is_a_velocity() {
    let a = Acceleration::new(100_000, -50_000);
    assert_eq!(a * Span::from_millis(50), Velocity::new(5_000, -2_500));
    assert_eq!(a + a, Acceleration::new(200_000, -100_000));
    assert_eq!(-a, Acceleration::new(-100_000, 50_000));
    assert_eq!(a / 2_000, Acceleration::new(50_000, -25_000));
    assert_eq!(a * 2_000, Acceleration::new(200_000, -100_000));
    let mut b = a;
    b += a;
    assert_eq!(b, a + a);
}

#[test]
fn velocities_add_and_scale() {
    let v = Velocity::new(10_000, -3_000);
    assert_eq!(v + v, Velocity::new(20_000, -6_000));
    assert_eq!(v * 700, Velocity::new(7_000, -2_100));
    assert_eq!(v / 2_000, Velocity::new(5_000, -1_500));
    let mut w = v;
    w *= 700;
    assert_eq!(w, Velocity::new(7_000, -2_100));
    w += v;
    assert_eq!(w, Velocity::new(17_000, -5_100));
}

#[test]
fn clamp_leaves_a_slow_velocity_alone() {
    let v = Velocity::new(600_000, -800_000);
    assert_eq!(v.clamp(1_000_000), v);
    assert_eq!(Velocity::new(0, 0).clamp(0), Velocity::new(0, 0));
}

#[test]
fn clamp_cuts_exactly_to_the_cap_along_an_axis() {
    assert_eq!(Velocity::new(5_000_000, 0).clamp(1_000_000), Velocity::new(1_000_000, 0));
    assert_eq!(Velocity::new(0, -5_000_000).clamp(1_000_000), Velocity::new(0, -1_000_000));
    assert_eq!(Velocity::new(i64::MIN, 0).clamp(1_000_000), Velocity::new(-1_000_000, 0));
}

#[test]
fn clamp_keeps_the_direction() {
    let v = Velocity::new(3_000_000, -4_000_000).clamp(1_000_000);
    assert_eq!(v, Velocity::new(600_000, -800_000));
    assert_eq!(v.0.raw_square_sum(), 1_000_000u128 * 1_000_000u128);
}

#[test]
fn clamp_never_exceeds_the_cap() {
    let cap: i64 = 1_000_000;
    let samples = [
        (1_000_001, 1),
        (999_999, 2_000),
        (123_456_789, -987_654_321),
        (-7, 1_000_003),
        (i64::MAX, i64::MAX),
        (i64::MIN, i64::MIN),
        (i64::MAX, -1),
    ];
    for (x, y) in samples {
        let v = Velocity::new(x, y).clamp(cap);
        assert!(v.0.raw_square_sum() <= (cap as u128) * (cap as u128));
        assert!(v.0.raw_square_sum() >= ((cap - 3) as u128) * ((cap - 3) as u128));
        assert!(v.0.x.signum() == x.signum() || v.0.x == 0);
        assert!(v.0.y.signum() == y.signum() || v.0.y == 0);
    }
}

#[test]
fn clamp_with_a_negative_cap_stops() {
    assert_eq!(Velocity::new(5, -5).clamp(-1), Velocity::new(0, 0));
}

#[test]
fn spans_count_nanoseconds() {
    assert_eq!(Span::zero(), Span(0));
    assert_eq!(Span::from_nanos(17), Span(17));
    assert_eq!(Span::from_millis(50), Span(50_000_000));
    assert_eq!(Span::from_secs(2), Span(2_000_000_000));
    assert_eq!(Span::from_millis(u64::MAX).as_millis(), u64::MAX as u128);
    assert_eq!(Span::from_secs(u64::MAX).as_nanos(), u64::MAX as u128 * 1_000_000_000);
    assert_eq!(Span(1_999_999).as_millis(), 1);
    assert_eq!(Span(1_999_999).as_nanos(), 1_999_999);
    assert!(Span::from_millis(1) < Span::from_millis(2));
}

#[test]
fn uniform_draws_stay_in_their_box() {
    let low = Vec2 { x: -5, y: 100 };
    let high = Vec2 { x: 5, y: 101 };
    let vectors = UniformVec2::new(low, high);
    let positions = UniformPosition::new(Position(low), Position(high));
    let velocities = UniformVelocity::new_inclusive(Velocity(low), Velocity(high));
    let accelerations = UniformAcceleration::new(Acceleration(low), Acceleration(high));
    let mut seen = Vec::new();
    for _ in 0..200 {
        for v in [
            vectors.sample(),
            positions.sample().0,
            velocities.sample().0,
            accelerations.sample().0,
        ] {
            assert!(-5 <= v.x && v.x < 5);
            assert_eq!(v.y, 100);
            seen.push(v.x);
        }
    }
    for x in -5..5 {
        assert!(seen.contains(&x));
    }
}

#[test]
fn uniform_draws_leave_the_far_corner_out() {
    let draw = UniformVec2::new_inclusive(Vec2 { x: 0, y: 0 }, Vec2 { x: 1, y: 2 });
    for _ in 0..100 {
        let v = draw.sample();
        assert_eq!(v.x, 0);
        assert!(v.y == 0 || v.y == 1);
    }
}
