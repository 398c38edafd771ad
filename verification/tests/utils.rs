use rand::rngs::SmallRng;
use rand::SeedableRng;
use force_directed_graph::scalar::Scalar;
use force_directed_graph::utils::{
    direction_of_draw, ClampFiniteOr, ClampRange, FiniteOr, FiniteOrRandom, MapNonFinite,
};
use force_directed_graph::vector::Vec2;

fn scalar(value: f32) -> Scalar {
    if value.is_finite() {
        Scalar::from_raw((value as f64 * 4294967296.0) as i64)
    } else {
        Scalar::NonFinite
    }
}

fn vec2(x: f32, y: f32) -> Vec2 {
    Vec2::new(scalar(x), scalar(y))
}

#[test]
fn test_finite_or_random_normalized_finite() {
    let mut generator = SmallRng::seed_from_u64(0);
    assert_eq!(
        vec2(1.0, 2.0).finite_or_random_normalized(&mut generator),
        vec2(1.0, 2.0)
    );
}

#[test]
fn test_finite_or_random_normalized_infinite() {
    let mut generator = SmallRng::seed_from_u64(0);
    assert_ne!(
        vec2(1.0, f32::NAN).finite_or_random_normalized(&mut generator),
        vec2(1.0, 2.0)
    );
}

#[test]
fn test_clamp_finite_or_finite_self() {
    assert_eq!(
        scalar(0.5).clamp_finite_or(scalar(0.0), scalar(1.0), scalar(10.0)),
        scalar(0.5)
    );
}

#[test]
fn test_clamp_finite_or_finite_min() {
    assert_eq!(
        scalar(-1.0).clamp_finite_or(scalar(0.0), scalar(1.0), scalar(10.0)),
        scalar(0.0)
    );
}

#[test]
fn test_clamp_finite_or_finite_max() {
    assert_eq!(
        scalar(2.0).clamp_finite_or(scalar(0.0), scalar(1.0), scalar(10.0)),
        scalar(1.0)
    );
}

#[test]
fn test_clamp_finite_or_infinite() {
    assert_eq!(
        scalar(f32::NAN).clamp_finite_or(scalar(0.0), scalar(1.0), scalar(10.0)),
        scalar(10.0)
    );
}

#[test]
fn test_map_nonfinite_scalar() {
    assert_eq!(scalar(1.0).map_nonfinite(|_| scalar(10.0)), scalar(1.0));
    assert_eq!(scalar(f32::NAN).map_nonfinite(|_| scalar(10.0)), scalar(10.0));
    assert_eq!(scalar(f32::INFINITY).map_nonfinite(|_| scalar(10.0)), scalar(10.0));
    assert_eq!(scalar(f32::NEG_INFINITY).map_nonfinite(|_| scalar(10.0)), scalar(10.0));
}

#[test]
fn test_finite_or_scalar() {
    assert_eq!(scalar(1.0).finite_or(scalar(10.0)), scalar(1.0));
    assert_eq!(scalar(f32::NAN).finite_or(scalar(10.0)), scalar(10.0));
    assert_eq!(scalar(f32::INFINITY).finite_or(scalar(10.0)), scalar(10.0));
    assert_eq!(Scalar::from_raw(i64::MAX).finite_or(scalar(10.0)), Scalar::from_raw(i64::MAX));
    assert_eq!(Scalar::from_raw(i64::MIN).finite_or(scalar(10.0)), Scalar::from_raw(i64::MIN));
}

#[test]
fn test_map_nonfinite_vector() {
    let fallback = vec2(10.0, 20.0);
    assert_eq!(vec2(1.0, 2.0).map_nonfinite(|_| fallback), vec2(1.0, 2.0));
    assert_eq!(vec2(f32::NAN, 2.0).map_nonfinite(|_| fallback), fallback);
    assert_eq!(vec2(1.0, f32::NAN).map_nonfinite(|_| fallback), fallback);
}

#[test]
fn test_finite_or_vector() {
    let fallback = vec2(10.0, 20.0);
    assert_eq!(vec2(1.0, 2.0).finite_or(fallback), vec2(1.0, 2.0));
    assert_eq!(vec2(f32::NAN, 2.0).finite_or(fallback), fallback);
    assert_eq!(vec2(1.0, f32::NAN).finite_or(fallback), fallback);
    assert_eq!(vec2(f32::INFINITY, 2.0).finite_or(fallback), fallback);
    assert_eq!(vec2(f32::INFINITY, f32::NAN).finite_or(fallback), fallback);
    assert_eq!(vec2(f32::NEG_INFINITY, f32::NEG_INFINITY).finite_or(fallback), fallback);
}

#[test]
fn test_clamp_range() {
    let bound = Scalar::from_raw(1 << 61);
    assert_eq!(scalar(1.0).clamp_range(), scalar(1.0));
    assert_eq!(Scalar::from_raw(i64::MAX).clamp_range(), bound);
    assert_eq!(Scalar::from_raw(i64::MIN).clamp_range(), bound.neg());
    assert_eq!(Scalar::NonFinite.clamp_range(), Scalar::NonFinite);
    assert_eq!(
        Vec2::new(Scalar::from_raw(i64::MAX), scalar(-2.0)).clamp_range(),
        Vec2::new(bound, scalar(-2.0))
    );
    assert_eq!(
        vec2(1.0, f32::NAN).clamp_range(),
        Vec2::new(scalar(1.0), Scalar::NonFinite)
    );
}

#[test]
fn test_directions_of_the_quarter_turns() {
    assert_eq!(direction_of_draw(0), vec2(1.0, 0.0));
    assert_eq!(direction_of_draw(16), vec2(0.0, 1.0));
    assert_eq!(direction_of_draw(32), vec2(-1.0, 0.0));
    assert_eq!(direction_of_draw(48), vec2(0.0, -1.0));
    assert_eq!(direction_of_draw(64), vec2(1.0, 0.0));
    assert_eq!(direction_of_draw(u32::MAX), direction_of_draw(63));
}

#[test]
fn test_directions_between_the_axes() {
    let diagonal = Scalar::from_raw(3037000500);
    assert_eq!(direction_of_draw(8), Vec2::new(diagonal, diagonal));
    assert_eq!(direction_of_draw(24), Vec2::new(diagonal.neg(), diagonal));
    assert_eq!(direction_of_draw(40), Vec2::new(diagonal.neg(), diagonal.neg()));
    assert_eq!(direction_of_draw(56), Vec2::new(diagonal, diagonal.neg()));
    assert_eq!(
        direction_of_draw(1),
        Vec2::new(Scalar::from_raw(4274285855), Scalar::from_raw(420980412))
    );
    assert_eq!(
        direction_of_draw(17),
        Vec2::new(Scalar::from_raw(-420980412), Scalar::from_raw(4274285855))
    );
}

#[test]
fn test_every_direction_has_length_one() {
    for draw in 0..64u32 {
        let direction = direction_of_draw(draw);
        let x = direction.x.to_raw().unwrap() as i128;
        let y = direction.y.to_raw().unwrap() as i128;
        let error = x * x + y * y - (1i128 << 64);
        assert!(error.abs() <= 1 << 33);
        assert!(x.abs() >= 3037000500 || y.abs() >= 3037000500);
    }
}

#[test]
fn test_random_fallback_is_a_direction() {
    let mut generator = SmallRng::seed_from_u64(7);
    for _ in 0..100 {
        let direction = vec2(f32::NAN, 0.0).finite_or_random_normalized(&mut generator);
        assert!((0..64u32).any(|draw| direction_of_draw(draw) == direction));
    }
}
