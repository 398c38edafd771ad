//! The data model: nodes, their lock state, and the links between them.

use vstd::prelude::*;
use crate::scalar::Scalar;
use crate::utils::{ClampRange, FiniteOr};
use crate::vector::Vec2;

verus! {

/// The previous position of a node. The velocity of a node is not stored:
/// it is the difference between its position and its previous position.
#[derive(Clone, Copy, PartialEq, Eq, Structural, Debug)]
pub struct NodePhysics {
    pub previous_position: Vec2,
}

impl NodePhysics {
    /// The physics of a node that rests at `translation`.
    pub fn from_transform(translation: Vec2) -> (r: NodePhysics)
        ensures
            r.previous_position == translation,
    {
        NodePhysics { previous_position: translation }
    }
}

/// The mark of a node that the user holds. While a node is held, forces and
/// inertia do not move it; the velocity that they would have given it is
/// estimated and handed to the node when it is released.
#[derive(Clone, Copy, PartialEq, Eq, Structural, Debug)]
pub struct MouseLocked {
    pub velocity: Vec2,
}

#[derive(Clone, Copy, PartialEq, Eq, Structural, Debug)]
pub enum LockState {
    Free,
    Locked(MouseLocked),
}

#[derive(Clone, Copy, PartialEq, Eq, Structural, Debug)]
pub struct Node {
    pub position: Vec2,
    pub physics: NodePhysics,
    pub lock: LockState,
}

impl Node {
    /// Whether forces and inertia leave the node where it is.
    pub open spec fn locked(self) -> bool {
        self.lock is Locked
    }

    /// Whether every coordinate that the node holds is finite and within
    /// the safe operating range.
    pub open spec fn wf(self) -> bool {
        &&& self.position.in_range()
        &&& self.physics.previous_position.in_range()
        &&& match self.lock {
            LockState::Free => true,
            LockState::Locked(mark) => mark.velocity.in_range(),
        }
    }

    /// The position that a node is created at for a requested position:
    /// the origin stands in for a position with an undefined coordinate, and
    /// each coordinate is limited to the safe operating range.
    pub open spec fn admitted(position: Vec2) -> Vec2 {
        (if position.finite() {
            position
        } else {
            Vec2 { x: Scalar::Finite(0), y: Scalar::Finite(0) }
        }).range_clamped()
    }

    /// The node with its position moved by `delta` and limited to the safe
    /// operating range; where that position has an undefined coordinate, the
    /// node stays where it is. Its previous position and lock state stay.
    pub open spec fn moved(self, delta: Vec2) -> Node {
        let position = self.position.sum(delta).range_clamped();
        Node {
            position: if position.finite() {
                position
            } else {
                self.position
            },
            ..self
        }
    }

    /// A free node at rest.
    pub fn new(position: Vec2) -> (r: Node)
        ensures
            r.position == Node::admitted(position),
            r.physics.previous_position == r.position,
            r.lock == LockState::Free,
            r.wf(),
    {
        let position = position.finite_or(Vec2::zero()).clamp_range();
        Node { position, physics: NodePhysics::from_transform(position), lock: LockState::Free }
    }

    pub fn is_locked(&self) -> (r: bool)
        ensures
            r == self.locked(),
    {
        match self.lock {
            LockState::Free => false,
            LockState::Locked(_) => true,
        }
    }

    /// Moves the position by `delta`.
    pub fn translate(self, delta: Vec2) -> (r: Node)
        ensures
            r == self.moved(delta),
    {
        Node {
            position: self.position.add(delta).clamp_range().finite_or(self.position),
            physics: self.physics,
            lock: self.lock,
        }
    }
}

/// Whether every node of a table is well formed.
pub open spec fn all_wf(nodes: Seq<Node>) -> bool {
    forall|i: int| 0 <= i < nodes.len() ==> (#[trigger] nodes[i]).wf()
}

/// Why a link was refused.
#[derive(Clone, Copy, PartialEq, Eq, Structural, Debug)]
pub enum LinkError {
    /// The link joins a node to itself.
    SelfLoop,
    /// An end of the link is no node of the table.
    MissingNode,
    /// The rest length is undefined, zero or negative, or outside the safe
    /// operating range.
    InvalidDistance,
}

/// A spring between two nodes of the table, named by their indices.
#[derive(Clone, Copy, PartialEq, Eq, Structural, Debug)]
pub struct NodeLink {
    pub source: usize,
    pub target: usize,
    pub target_distance: Scalar,
}

impl NodeLink {
    /// Whether the link joins two different nodes of a table of
    /// `node_count` nodes and has a positive rest length.
    pub open spec fn valid_for(self, node_count: nat) -> bool {
        &&& self.source != self.target
        &&& self.source < node_count
        &&& self.target < node_count
        &&& self.target_distance.in_range()
        &&& self.target_distance.raw() > 0
    }

    /// The outcome of checking a link against a table of `node_count` nodes.
    pub open spec fn checked(
        source: usize,
        target: usize,
        target_distance: Scalar,
        node_count: nat,
    ) -> Result<NodeLink, LinkError> {
        if source == target {
            Err(LinkError::SelfLoop)
        } else if source >= node_count || target >= node_count {
            Err(LinkError::MissingNode)
        } else if !(target_distance.in_range() && target_distance.raw() > 0) {
            Err(LinkError::InvalidDistance)
        } else {
            Ok(NodeLink { source, target, target_distance })
        }
    }

    /// Makes a link for a table of `node_count` nodes, or says why there can
    /// be no such link.
    pub fn new(source: usize, target: usize, target_distance: Scalar, node_count: usize) -> (r:
        Result<NodeLink, LinkError>)
        ensures
            r == NodeLink::checked(source, target, target_distance, node_count as nat),
            r is Ok ==> r->Ok_0.valid_for(node_count as nat),
    {
        if source == target {
            Err(LinkError::SelfLoop)
        } else if source >= node_count || target >= node_count {
            Err(LinkError::MissingNode)
        } else if !(Scalar::zero().lt(target_distance) && target_distance == target_distance.clamp_range()) {
            Err(LinkError::InvalidDistance)
        } else {
            Ok(NodeLink { source, target, target_distance })
        }
    }
}

/// Whether every link of a table is valid for `node_count` nodes.
pub open spec fn all_valid(links: Seq<NodeLink>, node_count: nat) -> bool {
    forall|k: int| 0 <= k < links.len() ==> (#[trigger] links[k]).valid_for(node_count)
}

} // verus!
