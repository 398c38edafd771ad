use force_directed_graph::common::{LockState, MouseLocked, Node, NodePhysics};
use force_directed_graph::scalar::Scalar;
use force_directed_graph::vector::Vec2;
use force_directed_graph::verlet::{apply_velocity, integrate, VerletRes};

fn scalar(value: f32) -> Scalar {
    if value.is_finite() {
        Scalar::from_raw((value as f64 * 4294967296.0) as i64)
    } else {
        Scalar::NonFinite
    }
}

fn vec2(x: f32, y: f32) -> Vec2 {
    Vec2::new(scalar(x), scalar(y))
}

fn moving(position: Vec2, previous: Vec2) -> Node {
    Node {
        position,
        physics: NodePhysics::from_transform(previous),
        lock: LockState::Free,
    }
}

fn held(position: Vec2, previous: Vec2, velocity: Vec2) -> Node {
    Node {
        position,
        physics: NodePhysics::from_transform(previous),
        lock: LockState::Locked(MouseLocked { velocity }),
    }
}

#[test]
fn test_record_is_empty_before_the_first_update() {
    let verlet = VerletRes::new();
    assert!(!verlet.is_ready());
    assert!(!VerletRes::default().is_ready());
}

#[test]
fn test_first_update_fills_both_places() {
    let mut verlet = VerletRes::new();
    verlet.update(scalar(0.5));
    assert!(verlet.is_ready());
    assert_eq!(verlet.delta_secs(), scalar(0.5));
    assert_eq!(verlet.velocity_factor(), scalar(1.0));
    assert_eq!(verlet.delta_secs_squared(), scalar(0.25));
    assert_eq!(verlet.average_time_delta(2), scalar(0.5));
}

#[test]
fn test_later_update_pushes_the_oldest_step_out() {
    let mut verlet = VerletRes::new();
    verlet.update(scalar(0.25));
    verlet.update(scalar(0.5));
    assert_eq!(verlet.delta_secs(), scalar(0.5));
    assert_eq!(verlet.velocity_factor(), scalar(2.0));
    // 0.5 * (0.5 + 0.25) * 0.5
    assert_eq!(verlet.delta_secs_squared(), scalar(0.1875));
    verlet.update(scalar(1.0));
    assert_eq!(verlet.delta_secs(), scalar(1.0));
    assert_eq!(verlet.velocity_factor(), scalar(2.0));
    // 0.5 * (1.0 + 0.5) * 1.0
    assert_eq!(verlet.delta_secs_squared(), scalar(0.75));
    verlet.update(scalar(0.25));
    assert_eq!(verlet.velocity_factor(), scalar(0.25));
}

#[test]
fn test_velocity_factor_is_one_for_equal_steps() {
    let mut verlet = VerletRes::new();
    verlet.update(scalar(0.016));
    verlet.update(scalar(0.016));
    assert_eq!(verlet.velocity_factor(), scalar(1.0));
    verlet.update(scalar(0.3));
    verlet.update(scalar(0.3));
    assert_eq!(verlet.velocity_factor(), scalar(1.0));
}

#[test]
fn test_unusable_step_is_replaced() {
    let fallback = Scalar::from_raw(42949673);
    let mut verlet = VerletRes::new();
    verlet.update(scalar(0.0));
    assert_eq!(verlet.delta_secs(), fallback);
    assert_eq!(verlet.velocity_factor(), scalar(1.0));
    verlet.update(scalar(-1.0));
    assert_eq!(verlet.delta_secs(), fallback);
    verlet.update(scalar(f32::NAN));
    assert_eq!(verlet.delta_secs(), fallback);
    assert_eq!(verlet.velocity_factor(), scalar(1.0));
    verlet.update(scalar(0.5));
    verlet.update(scalar(0.0));
    assert!(verlet.velocity_factor().is_finite());
    assert_eq!(verlet.velocity_factor(), fallback.div(scalar(0.5)));
}

#[test]
fn test_large_step_is_limited() {
    let mut verlet = VerletRes::new();
    verlet.update(Scalar::from_raw(i64::MAX));
    assert_eq!(verlet.delta_secs(), Scalar::from_raw(1 << 61));
}

#[test]
fn test_average_time_delta() {
    let mut verlet = VerletRes::new();
    verlet.update(scalar(0.25));
    verlet.update(scalar(0.5));
    assert_eq!(verlet.average_time_delta(1), scalar(0.5));
    assert_eq!(verlet.average_time_delta(2), scalar(0.375));
    assert_eq!(verlet.average_time_delta(5), scalar(0.375));
    assert_eq!(verlet.average_time_delta(0), Scalar::NonFinite);
}

#[test]
fn test_free_node_coasts() {
    let node = moving(vec2(2.0, -1.0), vec2(1.0, 1.0));
    let after = integrate(node, scalar(1.0), scalar(0.5));
    // position + (position - previous) * 1.0 * 0.5
    assert_eq!(after.position, vec2(2.5, -2.0));
    assert_eq!(after.physics.previous_position, vec2(2.0, -1.0));
    assert_eq!(after.lock, LockState::Free);
}

#[test]
fn test_coasting_scales_with_the_time_step() {
    let node = moving(vec2(2.0, 0.0), vec2(1.0, 0.0));
    assert_eq!(integrate(node, scalar(2.0), scalar(1.0)).position, vec2(4.0, 0.0));
    assert_eq!(integrate(node, scalar(0.5), scalar(1.0)).position, vec2(2.5, 0.0));
    assert_eq!(integrate(node, scalar(1.0), scalar(0.0)).position, vec2(2.0, 0.0));
}

#[test]
fn test_locked_node_stays_and_estimates_its_velocity() {
    let node = held(vec2(2.0, 0.0), vec2(1.0, 0.0), vec2(0.0, 0.0));
    let after = integrate(node, scalar(1.0), scalar(0.5));
    assert_eq!(after.position, vec2(2.0, 0.0));
    assert_eq!(after.physics.previous_position, vec2(2.0, 0.0));
    // 0.9 * 0 + 0.1 * 0.5
    assert_eq!(
        after.lock,
        LockState::Locked(MouseLocked {
            velocity: Vec2::new(Scalar::from_raw(214748365), scalar(0.0)),
        })
    );
    // the node has come to rest: the estimate decays
    let later = integrate(after, scalar(1.0), scalar(0.5));
    assert_eq!(later.position, vec2(2.0, 0.0));
    assert_eq!(
        later.lock,
        LockState::Locked(MouseLocked {
            velocity: Vec2::new(Scalar::from_raw(193273528), scalar(0.0)),
        })
    );
}

#[test]
fn test_undefined_decay_leaves_the_node() {
    let node = moving(vec2(2.0, 0.0), vec2(1.0, 0.0));
    let after = integrate(node, scalar(1.0), Scalar::NonFinite);
    assert_eq!(after.position, vec2(2.0, 0.0));
    assert_eq!(after.physics.previous_position, vec2(2.0, 0.0));
}

#[test]
fn test_apply_velocity_advances_every_node() {
    let mut verlet = VerletRes::new();
    verlet.update(scalar(0.25));
    verlet.update(scalar(0.5));
    let mut nodes = vec![
        moving(vec2(2.0, 0.0), vec2(1.0, 0.0)),
        held(vec2(5.0, 5.0), vec2(4.0, 5.0), vec2(0.0, 0.0)),
        moving(vec2(0.0, 0.0), vec2(0.0, 0.0)),
    ];
    apply_velocity(scalar(0.5), &mut nodes, &verlet);
    // factor 2, decay 0.5
    assert_eq!(nodes[0].position, vec2(3.0, 0.0));
    assert_eq!(nodes[0].physics.previous_position, vec2(2.0, 0.0));
    assert_eq!(nodes[1].position, vec2(5.0, 5.0));
    assert_eq!(nodes[1].physics.previous_position, vec2(5.0, 5.0));
    assert_eq!(
        nodes[1].lock,
        LockState::Locked(MouseLocked {
            velocity: Vec2::new(Scalar::from_raw(429496730), scalar(0.0)),
        })
    );
    assert_eq!(nodes[2].position, vec2(0.0, 0.0));
}
