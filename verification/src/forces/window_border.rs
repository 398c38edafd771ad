//! Containment: nodes that left the visible region are put back on its
//! border, and bounce off it.

use vstd::prelude::*;
use crate::common::{all_wf, Node, NodePhysics};
use crate::forces::{each_free_node, update_each};
use crate::scalar::{Scalar, ONE_RAW};
use crate::utils::{ClampRange, FiniteOr};
use crate::vector::Vec2;
use crate::verlet::HALF_RAW;

verus! {

/// What the camera shows of the plane.
#[derive(Clone, Copy, PartialEq, Eq, Structural, Debug)]
pub struct Viewport {
    pub center: Vec2,
    pub width: Scalar,
    pub height: Scalar,
}

/// A rectangle with sides along the axes.
#[derive(Clone, Copy, PartialEq, Eq, Structural, Debug)]
pub struct Region {
    pub x_min: Scalar,
    pub x_max: Scalar,
    pub y_min: Scalar,
    pub y_max: Scalar,
}

/// How nodes are kept within the visible region.
#[derive(Clone, Copy, PartialEq, Eq, Structural, Debug)]
pub struct WindowBorderConfig {
    /// How much of its velocity a node keeps when it bounces off the
    /// border: zero for none of it, one for all of it.
    pub bounce: Scalar,
    /// By how much the visible region is narrower and lower than the
    /// viewport.
    pub margin: Scalar,
}

impl Region {
    /// Whether the four bounds are within the safe operating range and
    /// each lower bound is at most the upper one.
    pub open spec fn wf(self) -> bool {
        &&& self.x_min.in_range()
        &&& self.x_max.in_range()
        &&& self.y_min.in_range()
        &&& self.y_max.in_range()
        &&& self.x_min.raw() <= self.x_max.raw()
        &&& self.y_min.raw() <= self.y_max.raw()
    }
}

/// Half of what is left of `size` without the margin, and one half where
/// less than one is left or the size is undefined.
pub open spec fn half_extent(size: Scalar, margin: Scalar) -> Scalar {
    let reduced = size.difference(margin);
    (if Scalar::Finite(ONE_RAW).at_most(reduced) {
        reduced
    } else {
        Scalar::Finite(ONE_RAW)
    }).product(Scalar::Finite(HALF_RAW))
}

/// The centre of a viewport along one axis, and zero where it is
/// undefined.
pub open spec fn admitted_center(center: Scalar) -> Scalar {
    if center.finite() {
        center
    } else {
        Scalar::Finite(0)
    }
}

impl Viewport {
    /// The region around the centre of the viewport that is narrower and
    /// lower than the viewport by the margin.
    pub open spec fn region(self, margin: Scalar) -> Region {
        Region {
            x_min: admitted_center(self.center.x).difference(
                half_extent(self.width, margin),
            ).range_clamped(),
            x_max: admitted_center(self.center.x).sum(
                half_extent(self.width, margin),
            ).range_clamped(),
            y_min: admitted_center(self.center.y).difference(
                half_extent(self.height, margin),
            ).range_clamped(),
            y_max: admitted_center(self.center.y).sum(
                half_extent(self.height, margin),
            ).range_clamped(),
        }
    }

    /// Computes the region that nodes are kept in.
    pub fn visible_region(&self, margin: Scalar) -> (r: Region)
        ensures
            r == self.region(margin),
            r.wf(),
    {
        let half_width = half_extent_of(self.width, margin);
        let half_height = half_extent_of(self.height, margin);
        let x = self.center.x.finite_or(Scalar::zero());
        let y = self.center.y.finite_or(Scalar::zero());
        Region {
            x_min: x.sub(half_width).clamp_range(),
            x_max: x.add(half_width).clamp_range(),
            y_min: y.sub(half_height).clamp_range(),
            y_max: y.add(half_height).clamp_range(),
        }
    }
}

fn half_extent_of(size: Scalar, margin: Scalar) -> (r: Scalar)
    ensures
        r == half_extent(size, margin),
        r.finite(),
        r.raw() >= 0,
{
    let reduced = size.sub(margin);
    let reduced = if Scalar::one().le(reduced) {
        reduced
    } else {
        Scalar::one()
    };
    reduced.mul(Scalar::Finite(HALF_RAW))
}

/// The coordinate and the previous coordinate of a node along one axis
/// after containment between `low` and `high`. A coordinate within the
/// bounds stays, with its previous coordinate. One beyond a bound is put on
/// that bound, and the previous coordinate is put at the bound plus the
/// velocity with which the node came, times `bounce`.
pub open spec fn contained_axis(
    position: Scalar,
    previous: Scalar,
    low: Scalar,
    high: Scalar,
    bounce: Scalar,
) -> (Scalar, Scalar) {
    if position.less_than(low) || high.less_than(position) {
        let wall = position.clamped(low, high);
        let reflected = wall.sum(position.difference(previous).product(bounce)).range_clamped();
        (
            wall,
            if reflected.finite() {
                reflected
            } else {
                wall
            },
        )
    } else {
        (position, previous)
    }
}

/// The node after containment in `region`, each axis by itself.
pub open spec fn contained(node: Node, region: Region, bounce: Scalar) -> Node {
    let (x, previous_x) = contained_axis(
        node.position.x,
        node.physics.previous_position.x,
        region.x_min,
        region.x_max,
        bounce,
    );
    let (y, previous_y) = contained_axis(
        node.position.y,
        node.physics.previous_position.y,
        region.y_min,
        region.y_max,
        bounce,
    );
    Node {
        position: Vec2 { x, y },
        physics: NodePhysics { previous_position: Vec2 { x: previous_x, y: previous_y } },
        lock: node.lock,
    }
}

/// Contains one coordinate of a node.
pub fn contain_axis(position: Scalar, previous: Scalar, low: Scalar, high: Scalar, bounce: Scalar)
    -> (r: (Scalar, Scalar))
    requires
        low.at_most(high),
    ensures
        r == contained_axis(position, previous, low, high, bounce),
{
    if position.lt(low) || high.lt(position) {
        let wall = position.clamp(low, high);
        let reflected = wall.add(position.sub(previous).mul(bounce)).clamp_range();
        (wall, reflected.finite_or(wall))
    } else {
        (position, previous)
    }
}

/// Puts every node that is not locked and has left the region back on
/// its border.
pub fn apply_window_border(bounce: Scalar, nodes: &mut Vec<Node>, region: &Region)
    requires
        region.wf(),
    ensures
        final(nodes)@ == each_free_node(old(nodes)@, |node: Node| contained(node, *region, bounce)),
        all_wf(old(nodes)@) ==> all_wf(final(nodes)@),
{
    let change = |node: Node| -> (r: Node)
        ensures
            r == (if node.locked() {
                node
            } else {
                contained(node, *region, bounce)
            }),
        {
            if node.is_locked() {
                node
            } else {
                let (x, previous_x) = contain_axis(
                    node.position.x,
                    node.physics.previous_position.x,
                    region.x_min,
                    region.x_max,
                    bounce,
                );
                let (y, previous_y) = contain_axis(
                    node.position.y,
                    node.physics.previous_position.y,
                    region.y_min,
                    region.y_max,
                    bounce,
                );
                Node {
                    position: Vec2 { x, y },
                    physics: NodePhysics { previous_position: Vec2 { x: previous_x, y: previous_y } },
                    lock: node.lock,
                }
            }
        };
    update_each(nodes, change);
    assert(nodes@ =~= each_free_node(
        old(nodes)@,
        |node: Node| contained(node, *region, bounce),
    ));
}

/// A coordinate beyond a bound is put exactly on that bound, and one
/// within the bounds stays with its previous coordinate.
pub proof fn lemma_contained_axis_is_on_the_border(
    position: Scalar,
    previous: Scalar,
    low: Scalar,
    high: Scalar,
    bounce: Scalar,
)
    requires
        position.finite(),
        low.at_most(high),
    ensures
        position.less_than(low) ==> contained_axis(position, previous, low, high, bounce).0 == low,
        high.less_than(position) ==> contained_axis(position, previous, low, high, bounce).0
            == high,
        low.at_most(position) && position.at_most(high) ==> contained_axis(
            position,
            previous,
            low,
            high,
            bounce,
        ) == (position, previous),
{
}

/// Without bounce the border takes all the velocity of a node: the
/// previous coordinate of a node that was put on a bound is that bound.
pub proof fn lemma_no_bounce_absorbs_the_velocity(
    position: Scalar,
    previous: Scalar,
    low: Scalar,
    high: Scalar,
)
    requires
        position.finite(),
        previous.finite(),
        low.in_range(),
        high.in_range(),
        low.at_most(high),
        position.less_than(low) || high.less_than(position),
    ensures
        contained_axis(position, previous, low, high, Scalar::Finite(0)).1 == contained_axis(
            position,
            previous,
            low,
            high,
            Scalar::Finite(0),
        ).0,
{
    crate::scalar::lemma_product_by_zero(position.difference(previous));
}

/// With full bounce the border gives a node all its velocity back,
/// reversed: the previous coordinate of a node that was put on a bound is
/// that bound plus the velocity with which the node came, limited to the
/// safe operating range.
pub proof fn lemma_full_bounce_reflects_the_velocity(
    position: Scalar,
    previous: Scalar,
    low: Scalar,
    high: Scalar,
)
    requires
        position.finite(),
        previous.finite(),
        low.in_range(),
        high.in_range(),
        low.at_most(high),
        position.less_than(low) || high.less_than(position),
    ensures
        contained_axis(position, previous, low, high, Scalar::Finite(ONE_RAW)).1 == contained_axis(
            position,
            previous,
            low,
            high,
            Scalar::Finite(ONE_RAW),
        ).0.sum(position.difference(previous)).range_clamped(),
{
    crate::scalar::lemma_product_by_one(position.difference(previous));
}

} // verus!
