//! Gravity: a constant pull downwards.

use vstd::prelude::*;
use crate::common::{all_wf, Node};
use crate::forces::{each_free_node, update_each};
use crate::scalar::Scalar;
use crate::utils::ClampRange;
use crate::vector::Vec2;
use crate::verlet::VerletRes;

verus! {

/// The displacement that gravity of the given strength gives a node in a
/// time step whose effective square is `step_square`.
pub open spec fn gravity_displacement(strength: Scalar, step_square: Scalar) -> Vec2 {
    Vec2 {
        x: Scalar::Finite(0),
        y: strength.product(step_square).negation(),
    }.range_clamped()
}

/// Moves every node that is not locked downwards by the strength times
/// the effective square of the time step.
pub fn apply_gravity_force(strength: Scalar, nodes: &mut Vec<Node>, verlet: &VerletRes)
    requires
        verlet.ready(),
    ensures
        final(nodes)@ == each_free_node(
            old(nodes)@,
            |node: Node|
                node.moved(gravity_displacement(strength, verlet.squared())),
        ),
        all_wf(old(nodes)@) ==> all_wf(final(nodes)@),
{
    let step_square = verlet.delta_secs_squared();
    let force = Vec2::new(Scalar::zero(), strength.mul(step_square).neg()).clamp_range();
    let change = |node: Node| -> (r: Node)
        ensures
            r == (if node.locked() {
                node
            } else {
                node.moved(force)
            }),
        {
            if node.is_locked() {
                node
            } else {
                node.translate(force)
            }
        };
    update_each(nodes, change);
    assert(nodes@ =~= each_free_node(
        old(nodes)@,
        |node: Node| node.moved(gravity_displacement(strength, verlet.squared())),
    ));
}

} // verus!
