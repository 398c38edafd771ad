//! The galaxy force: a drift counter-clockwise around the origin.

use vstd::prelude::*;
use crate::common::{all_wf, Node};
use crate::forces::{each_free_node, update_each};
use crate::scalar::Scalar;
use crate::utils::{ClampRange, FiniteOr};
use crate::vector::Vec2;
use crate::verlet::VerletRes;

verus! {

/// The displacement that the galaxy force of the given strength gives a
/// node at `position` in a time step whose effective square is
/// `step_square`: the position turned by a quarter turn, times the
/// strength and the effective square. A position with an undefined
/// coordinate is not displaced.
pub open spec fn galaxy_displacement(position: Vec2, strength: Scalar, step_square: Scalar)
    -> Vec2 {
    let turned = position.quarter_turn().range_clamped();
    (if turned.finite() {
        turned
    } else {
        Vec2 { x: Scalar::Finite(0), y: Scalar::Finite(0) }
    }).scaled(strength).range_clamped().scaled(step_square).range_clamped()
}

/// Moves every node that is not locked counter-clockwise around the
/// origin.
pub fn apply_galaxy_force(strength: Scalar, nodes: &mut Vec<Node>, verlet: &VerletRes)
    requires
        verlet.ready(),
    ensures
        final(nodes)@ == each_free_node(
            old(nodes)@,
            |node: Node|
                node.moved(galaxy_displacement(node.position, strength, verlet.squared())),
        ),
        all_wf(old(nodes)@) ==> all_wf(final(nodes)@),
{
    let step_square = verlet.delta_secs_squared();
    let change = |node: Node| -> (r: Node)
        ensures
            r == (if node.locked() {
                node
            } else {
                node.moved(galaxy_displacement(node.position, strength, step_square))
            }),
        {
            if node.is_locked() {
                node
            } else {
                let turned = node.position.perp().clamp_range().finite_or(Vec2::zero());
                let force = turned.scale(strength).clamp_range().scale(step_square).clamp_range();
                node.translate(force)
            }
        };
    update_each(nodes, change);
    assert(nodes@ =~= each_free_node(
        old(nodes)@,
        |node: Node| node.moved(galaxy_displacement(node.position, strength, verlet.squared())),
    ));
}

} // verus!
