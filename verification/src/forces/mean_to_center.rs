//! Recentering: the whole layout is shifted so that the mean of its nodes
//! lies at the origin.

use vstd::prelude::*;
use crate::common::{all_wf, Node};
use crate::forces::{each_free_node, update_each};
use crate::scalar::{trunc_div, wide_saturate, wide_trunc_div, Scalar};
use crate::vector::Vec2;

verus! {

/// The sum of the raw x coordinates of the first `count` nodes. A node
/// with an undefined coordinate counts as zero.
pub open spec fn raw_sum_x(nodes: Seq<Node>, count: nat) -> int
    decreases count,
{
    if count == 0 {
        0
    } else {
        raw_sum_x(nodes, (count - 1) as nat) + nodes[count - 1].position.x.raw()
    }
}

/// The sum of the raw y coordinates of the first `count` nodes.
pub open spec fn raw_sum_y(nodes: Seq<Node>, count: nat) -> int
    decreases count,
{
    if count == 0 {
        0
    } else {
        raw_sum_y(nodes, (count - 1) as nat) + nodes[count - 1].position.y.raw()
    }
}

/// The mean of the positions of all nodes of a table that is not empty,
/// locked nodes included, each coordinate rounded towards zero.
pub open spec fn mean_position(nodes: Seq<Node>) -> Vec2
    recommends
        nodes.len() > 0,
{
    Vec2 {
        x: Scalar::of_raw(trunc_div(raw_sum_x(nodes, nodes.len()), nodes.len() as int)),
        y: Scalar::of_raw(trunc_div(raw_sum_y(nodes, nodes.len()), nodes.len() as int)),
    }
}

/// The table after recentering: every node that is not locked is moved by
/// what takes the mean to the origin. An empty table stays empty.
pub open spec fn recentered(nodes: Seq<Node>) -> Seq<Node> {
    if nodes.len() == 0 {
        nodes
    } else {
        each_free_node(nodes, |node: Node| node.moved(mean_position(nodes).negation()))
    }
}

/// Computes the mean of the positions of all nodes.
pub fn mean_of(nodes: &Vec<Node>) -> (mean: Vec2)
    requires
        nodes@.len() > 0,
    ensures
        mean == mean_position(nodes@),
        mean.finite(),
{
    let count: usize = nodes.len();
    let mut sum_x: i128 = 0;
    let mut sum_y: i128 = 0;
    let mut i: usize = 0;
    while i < count
        invariant
            i <= count,
            count == nodes@.len(),
            sum_x == raw_sum_x(nodes@, i as nat),
            sum_y == raw_sum_y(nodes@, i as nat),
            -0x8000_0000_0000_0000 * i <= sum_x <= 0x8000_0000_0000_0000 * i,
            -0x8000_0000_0000_0000 * i <= sum_y <= 0x8000_0000_0000_0000 * i,
        decreases count - i,
    {
        let position = nodes[i].position;
        let x: i64 = match position.x {
            Scalar::Finite(raw) => raw,
            Scalar::NonFinite => 0,
        };
        let y: i64 = match position.y {
            Scalar::Finite(raw) => raw,
            Scalar::NonFinite => 0,
        };
        sum_x = sum_x + x as i128;
        sum_y = sum_y + y as i128;
        i += 1;
    }
    Vec2 {
        x: Scalar::Finite(wide_saturate(wide_trunc_div(sum_x, count as i128))),
        y: Scalar::Finite(wide_saturate(wide_trunc_div(sum_y, count as i128))),
    }
}

/// Shifts every node that is not locked so that the mean of all nodes
/// comes to lie at the origin. With a locked node among them, one tick
/// takes the mean towards the origin and not onto it.
pub fn apply_mean_to_center(nodes: &mut Vec<Node>)
    ensures
        final(nodes)@ == recentered(old(nodes)@),
        all_wf(old(nodes)@) ==> all_wf(final(nodes)@),
{
    if nodes.len() == 0 {
        return ;
    }
    let correction = mean_of(nodes).neg();
    let change = |node: Node| -> (r: Node)
        ensures
            r == (if node.locked() {
                node
            } else {
                node.moved(correction)
            }),
        {
            if node.is_locked() {
                node
            } else {
                node.translate(correction)
            }
        };
    update_each(nodes, change);
    assert(nodes@ =~= each_free_node(
        old(nodes)@,
        |node: Node| node.moved(mean_position(old(nodes)@).negation()),
    ));
}

} // verus!
