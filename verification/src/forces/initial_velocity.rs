//! The initial nudge: a drift that every node starts with.

use vstd::prelude::*;
use crate::common::{all_wf, Node};
use crate::forces::{each_free_node, update_each};
use crate::scalar::Scalar;
use crate::utils::ClampRange;
use crate::vector::Vec2;
use crate::verlet::VerletRes;

verus! {

/// The displacement of a node that moves downwards with the given velocity
/// for the time `step`.
pub open spec fn nudge(velocity: Scalar, step: Scalar) -> Vec2 {
    Vec2 { x: Scalar::Finite(0), y: velocity.product(step).negation() }.range_clamped()
}

/// The table after the nudge: at the elapsed time zero every node that is
/// not locked is displaced, and at any other time the table stays as it is.
pub open spec fn nudged(nodes: Seq<Node>, velocity: Scalar, step: Scalar, elapsed: Scalar)
    -> Seq<Node> {
    if elapsed == Scalar::Finite(0) {
        each_free_node(nodes, |node: Node| node.moved(nudge(velocity, step)))
    } else {
        nodes
    }
}

/// Gives every node that is not locked its starting drift, in the first
/// tick only.
pub fn apply_initial_velocity(
    velocity: Scalar,
    nodes: &mut Vec<Node>,
    verlet: &VerletRes,
    elapsed: Scalar,
)
    requires
        verlet.ready(),
    ensures
        final(nodes)@ == nudged(old(nodes)@, velocity, verlet.newest(), elapsed),
        all_wf(old(nodes)@) ==> all_wf(final(nodes)@),
{
    if elapsed.is_zero() {
        let step = verlet.delta_secs();
        let push = Vec2::new(Scalar::zero(), velocity.mul(step).neg()).clamp_range();
        let change = |node: Node| -> (r: Node)
            ensures
                r == (if node.locked() {
                    node
                } else {
                    node.moved(push)
                }),
            {
                if node.is_locked() {
                    node
                } else {
                    node.translate(push)
                }
            };
        update_each(nodes, change);
        assert(nodes@ =~= each_free_node(
            old(nodes)@,
            |node: Node| node.moved(nudge(velocity, verlet.newest())),
        ));
    }
}

} // verus!
