//! The lock state machine: what becomes of a node when the user takes hold
//! of it, drags it, and lets it go.

use vstd::prelude::*;
use crate::common::{LockState, MouseLocked, Node, NodePhysics};
use crate::scalar::Scalar;
use crate::utils::{ClampRange, FiniteOr};
use crate::vector::Vec2;

verus! {

impl Node {
    /// The node once the user has taken hold of it: locked, with a
    /// velocity estimate of zero.
    pub open spec fn grabbed(self) -> Node {
        Node {
            lock: LockState::Locked(
                MouseLocked { velocity: Vec2 { x: Scalar::Finite(0), y: Scalar::Finite(0) } },
            ),
            ..self
        }
    }

    /// The node once the user has dragged it to `target`: at the target,
    /// limited to the safe operating range. A target with an undefined
    /// coordinate leaves the node where it is.
    pub open spec fn dragged_to(self, target: Vec2) -> Node {
        Node {
            position: if target.finite() {
                target.range_clamped()
            } else {
                self.position
            },
            ..self
        }
    }

    /// The previous position that hands the velocity estimate to a node
    /// on its release: the previous position less the estimate. Where that
    /// has an undefined coordinate, the previous position stays.
    pub open spec fn release_handoff(previous: Vec2, velocity: Vec2) -> Vec2 {
        let handoff = previous.difference(velocity).range_clamped();
        if handoff.finite() {
            handoff
        } else {
            previous
        }
    }

    /// The node once the user has let it go: free, and with the previous
    /// position that gives it the estimated velocity. A free node stays as
    /// it is.
    pub open spec fn released(self) -> Node {
        match self.lock {
            LockState::Free => self,
            LockState::Locked(mark) => Node {
                position: self.position,
                physics: NodePhysics {
                    previous_position: Node::release_handoff(
                        self.physics.previous_position,
                        mark.velocity,
                    ),
                },
                lock: LockState::Free,
            },
        }
    }
}

/// The table in which `change` was applied to the node at `id`. Without
/// such a node the table stays as it is.
pub open spec fn at_node(nodes: Seq<Node>, id: int, change: spec_fn(Node) -> Node) -> Seq<Node> {
    if 0 <= id < nodes.len() {
        nodes.update(id, change(nodes[id]))
    } else {
        nodes
    }
}

/// The user takes hold of the node at `id`: the node is locked, and the
/// estimate of its velocity starts at zero.
pub fn drag_start(nodes: &mut Vec<Node>, id: usize)
    ensures
        final(nodes)@ == at_node(old(nodes)@, id as int, |node: Node| node.grabbed()),
        crate::common::all_wf(old(nodes)@) ==> crate::common::all_wf(final(nodes)@),
{
    if id < nodes.len() {
        let node = nodes[id];
        nodes.set(
            id,
            Node {
                position: node.position,
                physics: node.physics,
                lock: LockState::Locked(MouseLocked { velocity: Vec2::zero() }),
            },
        );
    }
}

/// The user drags the node at `id` to `target`, a position in the plane
/// of the layout.
pub fn drag_n_drop(nodes: &mut Vec<Node>, id: usize, target: Vec2)
    ensures
        final(nodes)@ == at_node(old(nodes)@, id as int, |node: Node| node.dragged_to(target)),
        crate::common::all_wf(old(nodes)@) ==> crate::common::all_wf(final(nodes)@),
{
    if id < nodes.len() {
        let node = nodes[id];
        let position = if target.is_finite() {
            target.clamp_range()
        } else {
            node.position
        };
        nodes.set(id, Node { position, physics: node.physics, lock: node.lock });
    }
}

/// The user lets go of the node at `id`: the node is free again, and its
/// previous position is set back by the estimate of its velocity, so that
/// it moves on with that velocity.
pub fn drag_end(nodes: &mut Vec<Node>, id: usize)
    ensures
        final(nodes)@ == at_node(old(nodes)@, id as int, |node: Node| node.released()),
        crate::common::all_wf(old(nodes)@) ==> crate::common::all_wf(final(nodes)@),
{
    if id < nodes.len() {
        let node = nodes[id];
        match node.lock {
            LockState::Free => {},
            LockState::Locked(mark) => {
                let previous = node.physics.previous_position;
                let handoff = previous.sub(mark.velocity).clamp_range().finite_or(previous);
                nodes.set(
                    id,
                    Node {
                        position: node.position,
                        physics: NodePhysics { previous_position: handoff },
                        lock: LockState::Free,
                    },
                );
            },
        }
        assert(nodes@ =~= at_node(old(nodes)@, id as int, |node: Node| node.released()));
    }
}

} // verus!
