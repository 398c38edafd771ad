//! Friction: a constant force against the movement of each node.

use vstd::prelude::*;
use crate::common::{all_wf, Node};
use crate::forces::{each_free_node, update_each};
use crate::scalar::Scalar;
use crate::utils::ClampRange;
use crate::vector::Vec2;
use crate::verlet::VerletRes;

verus! {

/// The displacement of a node in the previous tick, which stands for its
/// velocity.
pub open spec fn movement(node: Node) -> Vec2 {
    node.position.difference(node.physics.previous_position).range_clamped()
}

/// The displacement that friction of the given strength gives a node in a
/// time step whose effective square is `step_square`: against its
/// movement, with the strength times the effective square as its length.
pub open spec fn friction_displacement(node: Node, strength: Scalar, step_square: Scalar) -> Vec2 {
    movement(node).direction().negation().scaled(strength).range_clamped().scaled(
        step_square,
    ).range_clamped()
}

/// The node after friction has acted on it. A node at rest stays as it is.
pub open spec fn slowed(node: Node, strength: Scalar, step_square: Scalar) -> Node {
    if movement(node).norm() == Scalar::Finite(0) {
        node
    } else {
        node.moved(friction_displacement(node, strength, step_square))
    }
}

/// Pushes every node that is not locked against its movement.
pub fn apply_friction(strength: Scalar, nodes: &mut Vec<Node>, verlet: &VerletRes)
    requires
        verlet.ready(),
    ensures
        final(nodes)@ == each_free_node(
            old(nodes)@,
            |node: Node| slowed(node, strength, verlet.squared()),
        ),
        all_wf(old(nodes)@) ==> all_wf(final(nodes)@),
{
    let step_square = verlet.delta_secs_squared();
    let change = |node: Node| -> (r: Node)
        ensures
            r == (if node.locked() {
                node
            } else {
                slowed(node, strength, step_square)
            }),
        {
            if node.is_locked() {
                node
            } else {
                let movement = node.position.sub(node.physics.previous_position).clamp_range();
                if movement.length().is_zero() {
                    node
                } else {
                    let force = movement.normalize().neg().scale(strength).clamp_range().scale(
                        step_square,
                    ).clamp_range();
                    node.translate(force)
                }
            }
        };
    update_each(nodes, change);
    assert(nodes@ =~= each_free_node(
        old(nodes)@,
        |node: Node| slowed(node, strength, verlet.squared()),
    ));
}

} // verus!
