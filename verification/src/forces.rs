//! The forces. Each changes the node table for one tick; the nodes that
//! the user holds stay where they are.

use vstd::prelude::*;
use crate::common::Node;

pub mod friction;
pub mod galaxy;
pub mod gravity;
pub mod initial_velocity;
pub mod link;
pub mod mean_to_center;
pub mod repulsion;
pub mod window_border;

verus! {

/// The table in which `change` was applied to every node.
pub open spec fn each_node(nodes: Seq<Node>, change: spec_fn(Node) -> Node) -> Seq<Node> {
    Seq::new(nodes.len(), |i: int| change(nodes[i]))
}

/// The table in which `change` was applied to every node that is not
/// locked.
pub open spec fn each_free_node(nodes: Seq<Node>, change: spec_fn(Node) -> Node) -> Seq<Node> {
    Seq::new(
        nodes.len(),
        |i: int|
            if nodes[i].locked() {
                nodes[i]
            } else {
                change(nodes[i])
            },
    )
}

/// Replaces every node of the table by what `change` makes of it.
pub(crate) fn update_each<F: Fn(Node) -> Node>(nodes: &mut Vec<Node>, change: F)
    requires
        forall|node: Node| change.requires((node,)),
    ensures
        final(nodes)@.len() == old(nodes)@.len(),
        forall|i: int|
            0 <= i < old(nodes)@.len() ==> change.ensures(
                (#[trigger] old(nodes)@[i],),
                final(nodes)@[i],
            ),
{
    let count: usize = nodes.len();
    let mut i: usize = 0;
    while i < count
        invariant
            i <= count,
            nodes@.len() == count,
            old(nodes)@.len() == count,
            forall|node: Node| change.requires((node,)),
            forall|k: int| 0 <= k < i ==> change.ensures((#[trigger] old(nodes)@[k],), nodes@[k]),
            forall|k: int| i <= k < count ==> nodes@[k] == old(nodes)@[k],
        decreases count - i,
    {
        let node = nodes[i];
        nodes.set(i, change(node));
        i += 1;
    }
}

} // verus!
